//! Versioned schema migrations, and the model of what applying them does to
//! the database.
use vstd::prelude::*;
use crate::schema::{TableDef, TableSpec, OnConflict, create_table_sql, create_table_text, join_strings, names_view, script_text};

verus! {

/// The direction of a migration.
#[derive(Clone, Copy, Debug, PartialEq, Eq, Structural)]
pub enum MigrationKind {
    Up,
    Down,
}

/// Mathematical model of a migration: the tables that its statement creates.
pub struct MigrationSpec {
    pub version: int,
    pub description: Seq<char>,
    pub kind: MigrationKind,
    pub tables: Seq<TableSpec>,
}

/// One step of the schema, identified by its version.
pub struct Migration {
    pub version: i64,
    pub description: String,
    pub kind: MigrationKind,
    pub tables: Vec<TableDef>,
}

impl View for Migration {
    type V = MigrationSpec;

    open spec fn view(&self) -> MigrationSpec {
        MigrationSpec {
            version: self.version as int,
            description: self.description@,
            kind: self.kind,
            tables: self.tables@.map_values(|t: TableDef| t@),
        }
    }
}

impl Migration {
    /// The statement that the database executes for this step: the creation
    /// of each of its tables, in order, one per line.
    pub fn sql(&self) -> (r: String)
        ensures
            r@ == script_text(self@.tables),
    {
        let ghost f = |t: TableSpec| create_table_text(t);
        let ghost ts = self@.tables;
        let mut parts: Vec<String> = Vec::new();
        let mut i: usize = 0;
        while i < self.tables.len()
            invariant
                i <= self.tables.len(),
                ts == self@.tables,
                f == (|t: TableSpec| create_table_text(t)),
                names_view(parts@) == ts.take(i as int).map_values(f),
            decreases self.tables.len() - i,
        {
            let s = create_table_sql(&self.tables[i]);
            proof {
                assert(names_view(parts@.push(s)) =~= names_view(parts@).push(s@));
                assert(ts[i as int] == self.tables@[i as int]@);
                assert(ts.take(i + 1).map_values(f) =~= ts.take(i as int).map_values(f).push(
                    f(ts[i as int]),
                ));
            }
            parts.push(s);
            i = i + 1;
        }
        assert(ts.take(self.tables.len() as int) =~= ts);
        join_strings(&parts, "\n")
    }
}

/// Model of the database schema: the tables by name, and the versions whose
/// migrations have been applied.
pub struct SchemaState {
    pub tables: Map<Seq<char>, TableSpec>,
    pub applied: Set<int>,
}

pub open spec fn empty_schema() -> SchemaState {
    SchemaState { tables: Map::empty(), applied: Set::empty() }
}

/// Whether `x` is among the first `n` items of `s`.
pub open spec fn occurs_in_first(s: Seq<Seq<char>>, n: int, x: Seq<char>) -> bool
    decreases n,
{
    n > 0 && (s[n - 1] == x || occurs_in_first(s, n - 1, x))
}

/// Whether the first `n` items of `s` are pairwise distinct.
pub open spec fn distinct_first(s: Seq<Seq<char>>, n: int) -> bool
    decreases n,
{
    n <= 0 || (!occurs_in_first(s, n - 1, s[n - 1]) && distinct_first(s, n - 1))
}

/// Whether each of the first `n` items of `xs` occurs in `s`.
pub open spec fn all_occur_first(xs: Seq<Seq<char>>, n: int, s: Seq<Seq<char>>) -> bool
    decreases n,
{
    n <= 0 || (occurs_in_first(s, s.len() as int, xs[n - 1]) && all_occur_first(xs, n - 1, s))
}

pub open spec fn column_names(t: TableSpec) -> Seq<Seq<char>> {
    t.columns.map_values(|c: crate::schema::ColumnSpec| c.name)
}

/// Whether each name of `cols` is a column of `t`.
pub open spec fn declared(t: TableSpec, cols: Seq<Seq<char>>) -> bool {
    all_occur_first(cols, cols.len() as int, column_names(t))
}

/// A table definition that the database accepts: at least one column, no two
/// columns of one name, and keys made of at least one declared column each.
pub open spec fn well_formed_table(t: TableSpec) -> bool {
    &&& t.columns.len() > 0
    &&& distinct_first(column_names(t), t.columns.len() as int)
    &&& t.primary_key.len() > 0
    &&& declared(t, t.primary_key)
    &&& forall|u: int|
        0 <= u < t.unique.len() ==> (#[trigger] t.unique[u]).len() > 0 && declared(t, t.unique[u])
}

/// Creates the first `n` tables of `ts` in order, or fails where one is not
/// well formed or its name is taken.
pub open spec fn create_first(tables: Map<Seq<char>, TableSpec>, ts: Seq<TableSpec>, n: int) -> Option<Map<Seq<char>, TableSpec>>
    decreases n,
{
    if n <= 0 {
        Some(tables)
    } else {
        match create_first(tables, ts, n - 1) {
            None => None,
            Some(m) => {
                let t = ts[n - 1];
                if !well_formed_table(t) || m.contains_key(t.name) {
                    None
                } else {
                    Some(m.insert(t.name, t))
                }
            },
        }
    }
}

/// Creates the tables `ts` in order, as one statement.
pub open spec fn create_tables(tables: Map<Seq<char>, TableSpec>, ts: Seq<TableSpec>) -> Option<Map<Seq<char>, TableSpec>> {
    create_first(tables, ts, ts.len() as int)
}

/// One step of a forward run: a step already applied, or one that goes
/// down, changes nothing; any other either creates all of its tables and is
/// recorded as applied, or fails as a whole.
pub open spec fn apply_migration(s: SchemaState, m: MigrationSpec) -> Option<SchemaState> {
    if m.kind != MigrationKind::Up || s.applied.contains(m.version) {
        Some(s)
    } else {
        match create_tables(s.tables, m.tables) {
            None => None,
            Some(t) => Some(SchemaState { tables: t, applied: s.applied.insert(m.version) }),
        }
    }
}

/// A forward run over the first `n` steps of `ms`, in order: it fails as soon
/// as one step fails.
pub open spec fn run_first(s: SchemaState, ms: Seq<MigrationSpec>, n: int) -> Option<SchemaState>
    decreases n,
{
    if n <= 0 {
        Some(s)
    } else {
        match run_first(s, ms, n - 1) {
            None => None,
            Some(mid) => apply_migration(mid, ms[n - 1]),
        }
    }
}

/// A forward run over all of `ms`.
pub open spec fn run_migrations(s: SchemaState, ms: Seq<MigrationSpec>) -> Option<SchemaState> {
    run_first(s, ms, ms.len() as int)
}

/// A stored value. Null values are not modelled.
pub enum Value {
    Int(int),
    Text(Seq<char>),
    Bool(bool),
}

/// A row: a value for each column name.
pub type Row = Map<Seq<char>, Value>;

/// The values of `row` in the columns `cols`, in order.
pub open spec fn project(row: Row, cols: Seq<Seq<char>>) -> Seq<Value> {
    cols.map_values(|c: Seq<char>| row[c])
}

/// Whether two rows of `t` agree on the primary key or on a unique group.
pub open spec fn collides(t: TableSpec, a: Row, b: Row) -> bool {
    ||| project(a, t.primary_key) == project(b, t.primary_key)
    ||| exists|u: int| 0 <= u < t.unique.len() && project(a, #[trigger] t.unique[u]) == project(b, t.unique[u])
}

/// Inserts `row` into the rows of `t`, following the table's conflict
/// policy; `None` where the insert fails.
pub open spec fn insert_row(t: TableSpec, rows: Set<Row>, row: Row) -> Option<Set<Row>> {
    let clash = rows.filter(|r: Row| collides(t, r, row));
    if clash.is_empty() {
        Some(rows.insert(row))
    } else {
        match t.on_conflict {
            OnConflict::Abort => None,
            OnConflict::Ignore => Some(rows),
            OnConflict::Replace => Some(rows.difference(clash).insert(row)),
        }
    }
}

/// Two inserts in a row into an empty table of `t`.
pub open spec fn insert_two(t: TableSpec, first: Row, second: Row) -> Option<Set<Row>> {
    match insert_row(t, Set::empty(), first) {
        None => None,
        Some(rows) => insert_row(t, rows, second),
    }
}

proof fn lemma_run_first_applied_is_noop(s: SchemaState, ms: Seq<MigrationSpec>, n: int)
    requires
        n <= ms.len(),
        forall|i: int|
            0 <= i < ms.len() ==> (#[trigger] ms[i]).kind != MigrationKind::Up || s.applied.contains(
                ms[i].version,
            ),
    ensures
        run_first(s, ms, n) == Some(s),
    decreases n,
{
    if n > 0 {
        lemma_run_first_applied_is_noop(s, ms, n - 1);
        assert(ms[n - 1].kind != MigrationKind::Up || s.applied.contains(ms[n - 1].version));
    }
}

/// A successful run keeps what was applied before and records every step
/// that goes up.
proof fn lemma_run_first_records(s: SchemaState, ms: Seq<MigrationSpec>, n: int, r: SchemaState)
    requires
        0 <= n <= ms.len(),
        run_first(s, ms, n) == Some(r),
    ensures
        s.applied.subset_of(r.applied),
        forall|i: int|
            0 <= i < n ==> (#[trigger] ms[i]).kind != MigrationKind::Up || r.applied.contains(
                ms[i].version,
            ),
    decreases n,
{
    if n > 0 {
        let mid = run_first(s, ms, n - 1)->Some_0;
        lemma_run_first_records(s, ms, n - 1, mid);
        assert(mid.applied.subset_of(r.applied));
    }
}

/// Running the migrations again on the database that a successful run left
/// changes nothing.
pub proof fn lemma_rerun_is_noop(s: SchemaState, ms: Seq<MigrationSpec>, r: SchemaState)
    requires
        run_migrations(s, ms) == Some(r),
    ensures
        run_migrations(r, ms) == Some(r),
{
    lemma_run_first_records(s, ms, ms.len() as int, r);
    lemma_run_first_applied_is_noop(r, ms, ms.len() as int);
}

proof fn lemma_run_first_fails_after(s: SchemaState, ms: Seq<MigrationSpec>, i: int, n: int)
    requires
        0 <= i < n,
        run_first(s, ms, i + 1) is None,
    ensures
        run_first(s, ms, n) is None,
    decreases n,
{
    if n > i + 1 {
        lemma_run_first_fails_after(s, ms, i, n - 1);
    }
}

/// A step that fails makes the whole run fail, whatever follows it.
pub proof fn lemma_failed_step_fails_run(s: SchemaState, ms: Seq<MigrationSpec>, i: int, mid: SchemaState)
    requires
        0 <= i < ms.len(),
        run_first(s, ms, i) == Some(mid),
        apply_migration(mid, ms[i]) is None,
    ensures
        run_migrations(s, ms) is None,
{
    lemma_run_first_fails_after(s, ms, i, ms.len() as int);
}

/// A step that goes up, has not been applied yet and declares a table that is
/// not well formed fails, and with it the whole run.
pub proof fn lemma_malformed_step_fails_run(s: SchemaState, ms: Seq<MigrationSpec>, i: int, k: int, mid: SchemaState)
    requires
        0 <= i < ms.len(),
        run_first(s, ms, i) == Some(mid),
        ms[i].kind == MigrationKind::Up,
        !mid.applied.contains(ms[i].version),
        0 <= k < ms[i].tables.len(),
        !well_formed_table(ms[i].tables[k]),
    ensures
        run_migrations(s, ms) is None,
{
    lemma_create_fails_on_malformed(mid.tables, ms[i].tables, k, ms[i].tables.len() as int);
    lemma_failed_step_fails_run(s, ms, i, mid);
}

proof fn lemma_create_fails_on_malformed(tables: Map<Seq<char>, TableSpec>, ts: Seq<TableSpec>, k: int, n: int)
    requires
        0 <= k < n,
        !well_formed_table(ts[k]),
    ensures
        create_first(tables, ts, n) is None,
    decreases n,
{
    if k < n - 1 {
        lemma_create_fails_on_malformed(tables, ts, k, n - 1);
    }
}

} // verus!
