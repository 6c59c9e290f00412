//! Core of the MeeBible desktop host: the greeting command, the relational
//! schema of the reading database, the versioned migrations that create it,
//! and a model of what running them does, with its laws.
pub mod greet;
pub mod schema;
pub mod migration;
pub mod registry;
pub mod validate;
