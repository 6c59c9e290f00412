//! Table definitions of the embedded database and their rendering as
//! `CREATE TABLE` statements.
use vstd::prelude::*;
use vstd::string::StringExecFns;

verus! {

/// The declared type of a column.
#[derive(Clone, Copy, Debug, PartialEq, Eq, Structural)]
pub enum ColumnType {
    Text,
    Integer,
    Boolean,
    Varchar,
}

impl ColumnType {
    pub open spec fn sql_name(self) -> Seq<char> {
        match self {
            ColumnType::Text => "TEXT"@,
            ColumnType::Integer => "INTEGER"@,
            ColumnType::Boolean => "BOOLEAN"@,
            ColumnType::Varchar => "VARCHAR"@,
        }
    }

    /// The keyword that declares this type.
    pub fn sql(&self) -> (r: &'static str)
        ensures
            r@ == self.sql_name(),
    {
        match self {
            ColumnType::Text => "TEXT",
            ColumnType::Integer => "INTEGER",
            ColumnType::Boolean => "BOOLEAN",
            ColumnType::Varchar => "VARCHAR",
        }
    }
}

/// What an insert does when its row collides with a row already stored on
/// the primary key or on a unique column group.
#[derive(Clone, Copy, Debug, PartialEq, Eq, Structural)]
pub enum OnConflict {
    /// The insert fails.
    Abort,
    /// The insert is dropped and the stored row stays.
    Ignore,
    /// The colliding rows are removed and the new row is stored.
    Replace,
}

impl OnConflict {
    /// The clause that follows `PRIMARY KEY (...)`.
    pub open spec fn clause(self) -> Seq<char> {
        match self {
            OnConflict::Abort => ""@,
            OnConflict::Ignore => " ON CONFLICT IGNORE"@,
            OnConflict::Replace => " ON CONFLICT REPLACE"@,
        }
    }

    /// The clause that declares this policy on the primary key.
    pub fn sql(&self) -> (r: &'static str)
        ensures
            r@ == self.clause(),
    {
        match self {
            OnConflict::Abort => "",
            OnConflict::Ignore => " ON CONFLICT IGNORE",
            OnConflict::Replace => " ON CONFLICT REPLACE",
        }
    }
}

/// Mathematical model of a column.
pub struct ColumnSpec {
    pub name: Seq<char>,
    pub ty: ColumnType,
    pub not_null: bool,
}

/// Mathematical model of a table: its columns in order, the primary key, the
/// further unique column groups, and the conflict policy of the key.
pub struct TableSpec {
    pub name: Seq<char>,
    pub columns: Seq<ColumnSpec>,
    pub primary_key: Seq<Seq<char>>,
    pub unique: Seq<Seq<Seq<char>>>,
    pub on_conflict: OnConflict,
}

/// A column of a table definition.
pub struct Column {
    pub name: String,
    pub ty: ColumnType,
    pub not_null: bool,
}

impl View for Column {
    type V = ColumnSpec;

    open spec fn view(&self) -> ColumnSpec {
        ColumnSpec { name: self.name@, ty: self.ty, not_null: self.not_null }
    }
}

/// The models of a list of names.
pub open spec fn names_view(v: Seq<String>) -> Seq<Seq<char>> {
    v.map_values(|s: String| s@)
}

/// A table definition, from which its `CREATE TABLE` statement is rendered.
pub struct TableDef {
    pub name: String,
    pub columns: Vec<Column>,
    pub primary_key: Vec<String>,
    pub unique: Vec<Vec<String>>,
    pub on_conflict: OnConflict,
}

impl View for TableDef {
    type V = TableSpec;

    open spec fn view(&self) -> TableSpec {
        TableSpec {
            name: self.name@,
            columns: self.columns@.map_values(|c: Column| c@),
            primary_key: names_view(self.primary_key@),
            unique: self.unique@.map_values(|g: Vec<String>| names_view(g@)),
            on_conflict: self.on_conflict,
        }
    }
}

/// `parts` with `sep` between each two neighbours.
pub open spec fn join(parts: Seq<Seq<char>>, sep: Seq<char>) -> Seq<char>
    decreases parts.len(),
{
    if parts.len() == 0 {
        Seq::empty()
    } else if parts.len() == 1 {
        parts[0]
    } else {
        join(parts.drop_last(), sep) + sep + parts.last()
    }
}

pub open spec fn column_text(c: ColumnSpec) -> Seq<char> {
    c.name + " "@ + c.ty.sql_name() + if c.not_null {
        " NOT NULL"@
    } else {
        Seq::empty()
    }
}

pub open spec fn key_text(cols: Seq<Seq<char>>) -> Seq<char> {
    "("@ + join(cols, ", "@) + ")"@
}

/// The items between the parentheses of `CREATE TABLE`: the columns, then
/// the primary key with its conflict clause, then each unique group.
pub open spec fn table_items(t: TableSpec) -> Seq<Seq<char>> {
    t.columns.map_values(|c: ColumnSpec| column_text(c)).push(
        "PRIMARY KEY "@ + key_text(t.primary_key) + t.on_conflict.clause(),
    ) + t.unique.map_values(|g: Seq<Seq<char>>| "UNIQUE "@ + key_text(g))
}

/// The statement that creates `t`.
pub open spec fn create_table_text(t: TableSpec) -> Seq<char> {
    "CREATE TABLE "@ + t.name + " (\n    "@ + join(table_items(t), ",\n    "@) + "\n);"@
}

/// The statements that create each table of `ts`, in order.
pub open spec fn script_text(ts: Seq<TableSpec>) -> Seq<char> {
    join(ts.map_values(|t: TableSpec| create_table_text(t)), "\n"@)
}

/// Joins `parts` with `sep` between neighbours.
pub fn join_strings(parts: &Vec<String>, sep: &str) -> (r: String)
    ensures
        r@ == join(names_view(parts@), sep@),
{
    let ghost v = names_view(parts@);
    let mut r = String::new();
    let mut i: usize = 0;
    while i < parts.len()
        invariant
            i <= parts.len(),
            v == names_view(parts@),
            r@ == join(v.take(i as int), sep@),
        decreases parts.len() - i,
    {
        assert(v.take(i + 1).drop_last() == v.take(i as int));
        if i > 0 {
            r.append(sep);
        }
        r.append(parts[i].as_str());
        i = i + 1;
    }
    assert(v.take(parts.len() as int) == v);
    r
}

fn column_sql(c: &Column) -> (r: String)
    ensures
        r@ == column_text(c@),
{
    let r = c.name.clone().concat(" ").concat(c.ty.sql());
    if c.not_null {
        r.concat(" NOT NULL")
    } else {
        r
    }
}

fn key_sql(cols: &Vec<String>) -> (r: String)
    ensures
        r@ == key_text(names_view(cols@)),
{
    String::from_str("(").concat(join_strings(cols, ", ").as_str()).concat(")")
}

proof fn lemma_names_view_push(v: Seq<String>, s: String)
    ensures
        names_view(v.push(s)) == names_view(v).push(s@),
{
    assert(names_view(v.push(s)) =~= names_view(v).push(s@));
}

fn column_parts(t: &TableDef) -> (parts: Vec<String>)
    ensures
        names_view(parts@) == t@.columns.map_values(|c: ColumnSpec| column_text(c)),
{
    let ghost f = |c: ColumnSpec| column_text(c);
    let mut parts: Vec<String> = Vec::new();
    let mut i: usize = 0;
    while i < t.columns.len()
        invariant
            i <= t.columns.len(),
            f == (|c: ColumnSpec| column_text(c)),
            names_view(parts@) == t@.columns.take(i as int).map_values(f),
        decreases t.columns.len() - i,
    {
        let s = column_sql(&t.columns[i]);
        proof {
            lemma_names_view_push(parts@, s);
            assert(t@.columns[i as int] == t.columns@[i as int]@);
            assert(t@.columns.take(i + 1).map_values(f) =~= t@.columns.take(i as int).map_values(
                f,
            ).push(f(t@.columns[i as int])));
        }
        parts.push(s);
        i = i + 1;
    }
    assert(t@.columns.take(t.columns.len() as int) =~= t@.columns);
    parts
}

/// Renders the statement that creates `t`.
pub fn create_table_sql(t: &TableDef) -> (r: String)
    ensures
        r@ == create_table_text(t@),
{
    let ghost items = table_items(t@);
    let ghost g = |g: Seq<Seq<char>>| "UNIQUE "@ + key_text(g);
    let mut parts = column_parts(t);
    let pk = String::from_str("PRIMARY KEY ").concat(key_sql(&t.primary_key).as_str()).concat(
        t.on_conflict.sql(),
    );
    proof {
        lemma_names_view_push(parts@, pk);
    }
    parts.push(pk);
    let ghost n = t.columns.len() + 1;
    assert(items.take(n) =~= names_view(parts@));
    let mut j: usize = 0;
    while j < t.unique.len()
        invariant
            j <= t.unique.len(),
            n == t.columns.len() + 1,
            items == table_items(t@),
            g == (|g: Seq<Seq<char>>| "UNIQUE "@ + key_text(g)),
            names_view(parts@) == items.take(n + j),
        decreases t.unique.len() - j,
    {
        let s = String::from_str("UNIQUE ").concat(key_sql(&t.unique[j]).as_str());
        proof {
            lemma_names_view_push(parts@, s);
            assert(t@.unique[j as int] == names_view(t.unique@[j as int]@));
            assert(items[n + j] == g(t@.unique[j as int]));
            assert(items.take(n + j + 1) =~= items.take(n + j).push(items[n + j]));
        }
        parts.push(s);
        j = j + 1;
    }
    assert(items.take(n + t.unique.len()) =~= items);
    let body = join_strings(&parts, ",\n    ");
    String::from_str("CREATE TABLE ").concat(t.name.as_str()).concat(" (\n    ").concat(
        body.as_str(),
    ).concat("\n);")
}

} // verus!
