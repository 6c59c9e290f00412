//! Checks of table definitions and of a migration list against the model of
//! a forward run, so that a faulty schema is caught before startup.
use vstd::prelude::*;
use crate::schema::{TableDef, TableSpec, names_view};
use crate::migration::{
    Migration, MigrationKind, MigrationSpec, SchemaState, apply_migration, all_occur_first,
    column_names, create_first, declared, distinct_first, empty_schema, occurs_in_first, run_first,
    run_migrations, well_formed_table, lemma_failed_step_fails_run,
};

verus! {

proof fn lemma_occurs_push(v: Seq<Seq<char>>, a: Seq<char>, n: int, x: Seq<char>)
    requires
        n <= v.len(),
    ensures
        occurs_in_first(v.push(a), n, x) == occurs_in_first(v, n, x),
    decreases n,
{
    if n > 0 {
        lemma_occurs_push(v, a, n - 1, x);
    }
}

/// Whether `x` is among the first `n` names of `names`.
pub fn occurs_in(names: &Vec<String>, n: usize, x: &String) -> (r: bool)
    requires
        n <= names.len(),
    ensures
        r == occurs_in_first(names_view(names@), n as int, x@),
{
    let ghost v = names_view(names@);
    let mut i: usize = 0;
    let mut found = false;
    while i < n
        invariant
            i <= n <= names.len(),
            v == names_view(names@),
            found == occurs_in_first(v, i as int, x@),
        decreases n - i,
    {
        if names[i] == *x {
            found = true;
        }
        i = i + 1;
    }
    found
}

fn all_distinct(names: &Vec<String>) -> (r: bool)
    ensures
        r == distinct_first(names_view(names@), names.len() as int),
{
    let ghost v = names_view(names@);
    let mut i: usize = 0;
    let mut ok = true;
    while i < names.len()
        invariant
            i <= names.len(),
            v == names_view(names@),
            ok == distinct_first(v, i as int),
        decreases names.len() - i,
    {
        if occurs_in(names, i, &names[i]) {
            ok = false;
        }
        i = i + 1;
    }
    ok
}

fn all_declared(xs: &Vec<String>, names: &Vec<String>) -> (r: bool)
    ensures
        r == all_occur_first(names_view(xs@), xs.len() as int, names_view(names@)),
{
    let mut i: usize = 0;
    let mut ok = true;
    while i < xs.len()
        invariant
            i <= xs.len(),
            ok == all_occur_first(names_view(xs@), i as int, names_view(names@)),
        decreases xs.len() - i,
    {
        if !occurs_in(names, names.len(), &xs[i]) {
            ok = false;
        }
        i = i + 1;
    }
    ok
}

fn column_name_list(t: &TableDef) -> (r: Vec<String>)
    ensures
        names_view(r@) == column_names(t@),
{
    let mut r: Vec<String> = Vec::new();
    let mut i: usize = 0;
    while i < t.columns.len()
        invariant
            i <= t.columns.len(),
            names_view(r@) == column_names(t@).take(i as int),
        decreases t.columns.len() - i,
    {
        let s = t.columns[i].name.clone();
        proof {
            assert(t@.columns[i as int] == t.columns@[i as int]@);
            assert(names_view(r@.push(s)) =~= names_view(r@).push(s@));
            assert(column_names(t@).take(i + 1) =~= column_names(t@).take(i as int).push(
                t@.columns[i as int].name,
            ));
        }
        r.push(s);
        i = i + 1;
    }
    assert(column_names(t@).take(t.columns.len() as int) =~= column_names(t@));
    r
}

impl TableDef {
    /// Whether the database accepts this definition: at least one column, no
    /// two columns of one name, and keys made of at least one declared column
    /// each.
    pub fn is_well_formed(&self) -> (r: bool)
        ensures
            r == well_formed_table(self@),
    {
        let names = column_name_list(self);
        if names.len() == 0 || !all_distinct(&names) || self.primary_key.len() == 0
            || !all_declared(&self.primary_key, &names) {
            return false;
        }
        let mut u: usize = 0;
        while u < self.unique.len()
            invariant
                u <= self.unique.len(),
                names_view(names@) == column_names(self@),
                forall|k: int|
                    0 <= k < u ==> (#[trigger] self@.unique[k]).len() > 0 && declared(
                        self@,
                        self@.unique[k],
                    ),
            decreases self.unique.len() - u,
        {
            assert(self@.unique[u as int] == names_view(self.unique@[u as int]@));
            if self.unique[u].len() == 0 || !all_declared(&self.unique[u], &names) {
                return false;
            }
            u = u + 1;
        }
        true
    }
}

/// The models of a list of migrations.
pub open spec fn migrations_view(ms: Seq<Migration>) -> Seq<MigrationSpec> {
    ms.map_values(|m: Migration| m@)
}

proof fn lemma_create_none_after(tables: Map<Seq<char>, TableSpec>, ts: Seq<TableSpec>, j: int, n: int)
    requires
        0 <= j < n,
        create_first(tables, ts, j + 1) is None,
    ensures
        create_first(tables, ts, n) is None,
    decreases n,
{
    if n > j + 1 {
        lemma_create_none_after(tables, ts, j, n - 1);
    }
}

fn version_applied(versions: &Vec<i64>, x: i64) -> (r: bool)
    ensures
        r == versions@.map_values(|v: i64| v as int).contains(x as int),
{
    let ghost w = versions@.map_values(|v: i64| v as int);
    let mut i: usize = 0;
    while i < versions.len()
        invariant
            i <= versions.len(),
            w == versions@.map_values(|v: i64| v as int),
            forall|k: int| 0 <= k < i ==> w[k] != x as int,
        decreases versions.len() - i,
    {
        if versions[i] == x {
            assert(w[i as int] == x as int);
            return true;
        }
        i = i + 1;
    }
    false
}

/// Finds the first step of `ms` that fails when the list is run forward on
/// an empty database: `None` exactly where the whole run succeeds.
pub fn failing_step(ms: &Vec<Migration>) -> (r: Option<usize>)
    ensures
        r is None <==> run_migrations(empty_schema(), migrations_view(ms@)) is Some,
        r matches Some(i) ==> i < ms.len() && run_first(
            empty_schema(),
            migrations_view(ms@),
            i as int,
        ) is Some && apply_migration(
            run_first(empty_schema(), migrations_view(ms@), i as int)->Some_0,
            migrations_view(ms@)[i as int],
        ) is None,
{
    let ghost v = migrations_view(ms@);
    let ghost mut st = empty_schema();
    let mut names: Vec<String> = Vec::new();
    let mut versions: Vec<i64> = Vec::new();
    assert(versions@.map_values(|x: i64| x as int).to_set() =~= st.applied);
    let mut i: usize = 0;
    while i < ms.len()
        invariant
            i <= ms.len(),
            v == migrations_view(ms@),
            run_first(empty_schema(), v, i as int) == Some(st),
            forall|k: Seq<char>|
                st.tables.contains_key(k) <==> occurs_in_first(
                    names_view(names@),
                    names.len() as int,
                    k,
                ),
            st.applied == versions@.map_values(|x: i64| x as int).to_set(),
        decreases ms.len() - i,
    {
        let m = &ms[i];
        let ghost mv = v[i as int];
        assert(mv == ms@[i as int]@);
        let pending = match m.kind {
            MigrationKind::Up => !version_applied(&versions, m.version),
            MigrationKind::Down => false,
        };
        assert(pending <==> mv.kind == MigrationKind::Up && !st.applied.contains(mv.version));
        if pending {
            let ghost mut cur = st.tables;
            let mut j: usize = 0;
            while j < m.tables.len()
                invariant
                    i < ms.len(),
                    v == migrations_view(ms@),
                    run_first(empty_schema(), v, i as int) == Some(st),
                    mv == v[i as int],
                    mv == m@,
                    mv.kind == MigrationKind::Up,
                    !st.applied.contains(mv.version),
                    st.applied == versions@.map_values(|x: i64| x as int).to_set(),
                    j <= m.tables.len(),
                    create_first(st.tables, mv.tables, j as int) == Some(cur),
                    forall|k: Seq<char>|
                        cur.contains_key(k) <==> occurs_in_first(
                            names_view(names@),
                            names.len() as int,
                            k,
                        ),
                decreases m.tables.len() - j,
            {
                let t = &m.tables[j];
                assert(mv.tables[j as int] == t@);
                if !t.is_well_formed() || occurs_in(&names, names.len(), &t.name) {
                    proof {
                        lemma_create_none_after(st.tables, mv.tables, j as int, mv.tables.len() as int);
                        lemma_failed_step_fails_run(empty_schema(), v, i as int, st);
                    }
                    return Some(i);
                }
                let name = t.name.clone();
                proof {
                    let nv = names_view(names@);
                    assert(names_view(names@.push(name)) =~= nv.push(name@));
                    assert forall|k: Seq<char>|
                        occurs_in_first(nv.push(name@), nv.len() + 1int, k) == (k == name@
                            || occurs_in_first(nv, nv.len() as int, k)) by {
                        lemma_occurs_push(nv, name@, nv.len() as int, k);
                    }
                    cur = cur.insert(t@.name, t@);
                }
                names.push(name);
                j = j + 1;
            }
            proof {
                let vs = versions@.map_values(|x: i64| x as int);
                assert(versions@.push(m.version).map_values(|x: i64| x as int) =~= vs.push(
                    m.version as int,
                ));
                vs.lemma_push_to_set_commute(m.version as int);
                st = SchemaState { tables: cur, applied: st.applied.insert(mv.version) };
            }
            versions.push(m.version);
        }
        i = i + 1;
    }
    assert(v.len() == ms.len());
    None
}

} // verus!
