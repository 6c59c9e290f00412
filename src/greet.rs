//! The greeting command that the user interface calls to check that it can
//! reach the host.
use vstd::prelude::*;
use vstd::string::StringExecFns;

verus! {

/// The greeting for `name`: `Hello, {name}! You've been greeted from Rust!`.
pub open spec fn greeting(name: Seq<char>) -> Seq<char> {
    "Hello, "@ + name + "! You've been greeted from Rust!"@
}

/// Greets `name`. Any string is accepted and nothing else is touched.
pub fn greet(name: &str) -> (r: String)
    ensures
        r@ == greeting(name@),
{
    let head = String::from_str("Hello, ");
    head.concat(name).concat("! You've been greeted from Rust!")
}

} // verus!
