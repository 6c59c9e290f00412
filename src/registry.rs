//! The schema of the reading database: its tables and the migrations that
//! create them, version by version.
use vstd::prelude::*;
use vstd::string::StringExecFns;
use crate::schema::{Column, ColumnSpec, ColumnType, OnConflict, TableDef, TableSpec, names_view};
use crate::migration::{SchemaState, Row, project, collides, insert_two, run_migrations, run_first, create_first, empty_schema, MigrationKind, MigrationSpec, Migration, well_formed_table, column_names, distinct_first, occurs_in_first, all_occur_first};

verus! {

/// Where the database lives, as the host's database layer names it.
pub const DATABASE_URL: &'static str = "sqlite:meebible.db";

pub open spec fn col(name: Seq<char>, ty: ColumnType, not_null: bool) -> ColumnSpec {
    ColumnSpec { name, ty, not_null }
}

fn column(name: &str, ty: ColumnType, not_null: bool) -> (c: Column)
    ensures
        c@ == col(name@, ty, not_null),
{
    Column { name: String::from_str(name), ty, not_null }
}

fn strings(items: Vec<&str>) -> (r: Vec<String>)
    ensures
        names_view(r@) == items@.map_values(|s: &str| s@),
{
    let mut r: Vec<String> = Vec::new();
    let mut i: usize = 0;
    while i < items.len()
        invariant
            i <= items.len(),
            names_view(r@) == items@.take(i as int).map_values(|s: &str| s@),
        decreases items.len() - i,
    {
        let s = String::from_str(items[i]);
        proof {
            assert(names_view(r@.push(s)) =~= names_view(r@).push(s@));
            assert(items@.take(i + 1).map_values(|s: &str| s@) =~= items@.take(i as int).map_values(
                |s: &str| s@,
            ).push(items@[i as int]@));
        }
        r.push(s);
        i = i + 1;
    }
    assert(items@.take(items.len() as int) =~= items@);
    r
}

/// Bookmarked verses; a second bookmark of one verse is dropped.
pub open spec fn bookmarks_table() -> TableSpec {
    TableSpec {
        name: "bookmarks"@,
        columns: seq![
            col("bookCode"@, ColumnType::Text, false),
            col("chapterNo"@, ColumnType::Integer, false),
            col("verseNo"@, ColumnType::Integer, false),
        ],
        primary_key: seq!["bookCode"@, "chapterNo"@, "verseNo"@],
        unique: seq![],
        on_conflict: OnConflict::Ignore,
    }
}

/// Builds the definition of [`bookmarks_table`].
pub fn bookmarks() -> (t: TableDef)
    ensures
        t@ == bookmarks_table(),
{
    let t = TableDef {
        name: String::from_str("bookmarks"),
        columns: vec![
            column("bookCode", ColumnType::Text, false),
            column("chapterNo", ColumnType::Integer, false),
            column("verseNo", ColumnType::Integer, false),
        ],
        primary_key: strings(vec!["bookCode", "chapterNo", "verseNo"]),
        unique: Vec::new(),
        on_conflict: OnConflict::Ignore,
    };
    assert(t@.columns =~= bookmarks_table().columns);
    assert(t@.primary_key =~= bookmarks_table().primary_key);
    assert(t@.unique =~= bookmarks_table().unique);
    t
}

proof fn lemma_bookmarks_well_formed()
    ensures
        well_formed_table(bookmarks_table()),
{
    reveal_strlit("bookCode");
    reveal_strlit("bookmarks");
    reveal_strlit("chapterNo");
    reveal_strlit("verseNo");
    assert("bookCode"@.len() == 8);
    assert("bookmarks"@.len() == 9);
    assert("chapterNo"@.len() == 9);
    assert("verseNo"@.len() == 7);
    let t = bookmarks_table();
    assert(column_names(t) =~= seq!["bookCode"@, "chapterNo"@, "verseNo"@]);
    reveal_with_fuel(distinct_first, 4);
    reveal_with_fuel(occurs_in_first, 4);
    reveal_with_fuel(all_occur_first, 4);
}

/// Languages, by code, with their English and native names.
pub open spec fn languages_table() -> TableSpec {
    TableSpec {
        name: "languages"@,
        columns: seq![
            col("code"@, ColumnType::Text, false),
            col("engname"@, ColumnType::Text, true),
            col("selfname"@, ColumnType::Text, true),
        ],
        primary_key: seq!["code"@],
        unique: seq![],
        on_conflict: OnConflict::Abort,
    }
}

/// Builds the definition of [`languages_table`].
pub fn languages() -> (t: TableDef)
    ensures
        t@ == languages_table(),
{
    let t = TableDef {
        name: String::from_str("languages"),
        columns: vec![
            column("code", ColumnType::Text, false),
            column("engname", ColumnType::Text, true),
            column("selfname", ColumnType::Text, true),
        ],
        primary_key: strings(vec!["code"]),
        unique: Vec::new(),
        on_conflict: OnConflict::Abort,
    };
    assert(t@.columns =~= languages_table().columns);
    assert(t@.primary_key =~= languages_table().primary_key);
    assert(t@.unique =~= languages_table().unique);
    t
}

proof fn lemma_languages_well_formed()
    ensures
        well_formed_table(languages_table()),
{
    reveal_strlit("code");
    reveal_strlit("engname");
    reveal_strlit("languages");
    reveal_strlit("selfname");
    assert("code"@.len() == 4);
    assert("engname"@.len() == 7);
    assert("languages"@.len() == 9);
    assert("selfname"@.len() == 8);
    let t = languages_table();
    assert(column_names(t) =~= seq!["code"@, "engname"@, "selfname"@]);
    reveal_with_fuel(distinct_first, 4);
    reveal_with_fuel(occurs_in_first, 4);
    reveal_with_fuel(all_occur_first, 2);
}

/// Bible translations, by code: where they come from, their copyright, and whether they read right to left.
pub open spec fn translations_table() -> TableSpec {
    TableSpec {
        name: "translations"@,
        columns: seq![
            col("transCode"@, ColumnType::Text, false),
            col("sourceUrl"@, ColumnType::Text, false),
            col("copyright"@, ColumnType::Text, false),
            col("rtl"@, ColumnType::Boolean, false),
        ],
        primary_key: seq!["transCode"@],
        unique: seq![],
        on_conflict: OnConflict::Abort,
    }
}

/// Builds the definition of [`translations_table`].
pub fn translations() -> (t: TableDef)
    ensures
        t@ == translations_table(),
{
    let t = TableDef {
        name: String::from_str("translations"),
        columns: vec![
            column("transCode", ColumnType::Text, false),
            column("sourceUrl", ColumnType::Text, false),
            column("copyright", ColumnType::Text, false),
            column("rtl", ColumnType::Boolean, false),
        ],
        primary_key: strings(vec!["transCode"]),
        unique: Vec::new(),
        on_conflict: OnConflict::Abort,
    };
    assert(t@.columns =~= translations_table().columns);
    assert(t@.primary_key =~= translations_table().primary_key);
    assert(t@.unique =~= translations_table().unique);
    t
}

proof fn lemma_translations_well_formed()
    ensures
        well_formed_table(translations_table()),
{
    reveal_strlit("copyright");
    reveal_strlit("rtl");
    reveal_strlit("sourceUrl");
    reveal_strlit("transCode");
    reveal_strlit("translations");
    assert("copyright"@.len() == 9);
    assert("rtl"@.len() == 3);
    assert("sourceUrl"@.len() == 9);
    assert("transCode"@.len() == 9);
    assert("translations"@.len() == 12);
    assert("sourceUrl"@[0] == 's' && "transCode"@[0] == 't');
    assert("copyright"@[0] == 'c' && "transCode"@[0] == 't');
    assert("copyright"@[0] == 'c' && "sourceUrl"@[0] == 's');
    let t = translations_table();
    assert(column_names(t) =~= seq!["transCode"@, "sourceUrl"@, "copyright"@, "rtl"@]);
    reveal_with_fuel(distinct_first, 5);
    reveal_with_fuel(occurs_in_first, 5);
    reveal_with_fuel(all_occur_first, 2);
}

/// The name of each translation in each language.
pub open spec fn translation_languages_table() -> TableSpec {
    TableSpec {
        name: "translationLanguages"@,
        columns: seq![
            col("transCode"@, ColumnType::Varchar, false),
            col("langCode"@, ColumnType::Varchar, false),
            col("name"@, ColumnType::Varchar, false),
        ],
        primary_key: seq!["transCode"@, "langCode"@],
        unique: seq![],
        on_conflict: OnConflict::Abort,
    }
}

/// Builds the definition of [`translation_languages_table`].
pub fn translation_languages() -> (t: TableDef)
    ensures
        t@ == translation_languages_table(),
{
    let t = TableDef {
        name: String::from_str("translationLanguages"),
        columns: vec![
            column("transCode", ColumnType::Varchar, false),
            column("langCode", ColumnType::Varchar, false),
            column("name", ColumnType::Varchar, false),
        ],
        primary_key: strings(vec!["transCode", "langCode"]),
        unique: Vec::new(),
        on_conflict: OnConflict::Abort,
    };
    assert(t@.columns =~= translation_languages_table().columns);
    assert(t@.primary_key =~= translation_languages_table().primary_key);
    assert(t@.unique =~= translation_languages_table().unique);
    t
}

proof fn lemma_translation_languages_well_formed()
    ensures
        well_formed_table(translation_languages_table()),
{
    reveal_strlit("langCode");
    reveal_strlit("name");
    reveal_strlit("transCode");
    reveal_strlit("translationLanguages");
    assert("langCode"@.len() == 8);
    assert("name"@.len() == 4);
    assert("transCode"@.len() == 9);
    assert("translationLanguages"@.len() == 20);
    let t = translation_languages_table();
    assert(column_names(t) =~= seq!["transCode"@, "langCode"@, "name"@]);
    reveal_with_fuel(distinct_first, 4);
    reveal_with_fuel(occurs_in_first, 4);
    reveal_with_fuel(all_occur_first, 3);
}

/// The books of each translation and language, keyed by number and unique by code.
pub open spec fn books_info_table() -> TableSpec {
    TableSpec {
        name: "booksInfo"@,
        columns: seq![
            col("transCode"@, ColumnType::Varchar, false),
            col("langCode"@, ColumnType::Varchar, false),
            col("bookNumber"@, ColumnType::Integer, false),
            col("bookCode"@, ColumnType::Varchar, false),
            col("bookName"@, ColumnType::Varchar, false),
            col("chaptersCount"@, ColumnType::Integer, false),
        ],
        primary_key: seq!["transCode"@, "langCode"@, "bookNumber"@],
        unique: seq![seq!["transCode"@, "langCode"@, "bookCode"@]],
        on_conflict: OnConflict::Abort,
    }
}

/// Builds the definition of [`books_info_table`].
pub fn books_info() -> (t: TableDef)
    ensures
        t@ == books_info_table(),
{
    let t = TableDef {
        name: String::from_str("booksInfo"),
        columns: vec![
            column("transCode", ColumnType::Varchar, false),
            column("langCode", ColumnType::Varchar, false),
            column("bookNumber", ColumnType::Integer, false),
            column("bookCode", ColumnType::Varchar, false),
            column("bookName", ColumnType::Varchar, false),
            column("chaptersCount", ColumnType::Integer, false),
        ],
        primary_key: strings(vec!["transCode", "langCode", "bookNumber"]),
        unique: vec![strings(vec!["transCode", "langCode", "bookCode"])],
        on_conflict: OnConflict::Abort,
    };
    assert(t@.columns =~= books_info_table().columns);
    assert(t@.primary_key =~= books_info_table().primary_key);
    assert(t@.unique[0] =~= books_info_table().unique[0]);
    assert(t@.unique =~= books_info_table().unique);
    t
}

proof fn lemma_books_info_well_formed()
    ensures
        well_formed_table(books_info_table()),
{
    reveal_strlit("bookCode");
    reveal_strlit("bookName");
    reveal_strlit("bookNumber");
    reveal_strlit("booksInfo");
    reveal_strlit("chaptersCount");
    reveal_strlit("langCode");
    reveal_strlit("transCode");
    assert("bookCode"@.len() == 8);
    assert("bookName"@.len() == 8);
    assert("bookNumber"@.len() == 10);
    assert("booksInfo"@.len() == 9);
    assert("chaptersCount"@.len() == 13);
    assert("langCode"@.len() == 8);
    assert("transCode"@.len() == 9);
    assert("bookCode"@[0] == 'b' && "langCode"@[0] == 'l');
    assert("bookName"@[0] == 'b' && "langCode"@[0] == 'l');
    assert("bookName"@[4] == 'N' && "bookCode"@[4] == 'C');
    let t = books_info_table();
    assert(column_names(t) =~= seq!["transCode"@, "langCode"@, "bookNumber"@, "bookCode"@, "bookName"@, "chaptersCount"@]);
    reveal_with_fuel(distinct_first, 7);
    reveal_with_fuel(occurs_in_first, 7);
    reveal_with_fuel(all_occur_first, 4);
}

/// The number of verses of each chapter.
pub open spec fn chapter_size_table() -> TableSpec {
    TableSpec {
        name: "chapterSize"@,
        columns: seq![
            col("transCode"@, ColumnType::Varchar, false),
            col("langCode"@, ColumnType::Varchar, false),
            col("bookCode"@, ColumnType::Varchar, false),
            col("chapterNo"@, ColumnType::Integer, false),
            col("versesCount"@, ColumnType::Integer, false),
        ],
        primary_key: seq!["transCode"@, "langCode"@, "bookCode"@, "chapterNo"@],
        unique: seq![],
        on_conflict: OnConflict::Abort,
    }
}

/// Builds the definition of [`chapter_size_table`].
pub fn chapter_size() -> (t: TableDef)
    ensures
        t@ == chapter_size_table(),
{
    let t = TableDef {
        name: String::from_str("chapterSize"),
        columns: vec![
            column("transCode", ColumnType::Varchar, false),
            column("langCode", ColumnType::Varchar, false),
            column("bookCode", ColumnType::Varchar, false),
            column("chapterNo", ColumnType::Integer, false),
            column("versesCount", ColumnType::Integer, false),
        ],
        primary_key: strings(vec!["transCode", "langCode", "bookCode", "chapterNo"]),
        unique: Vec::new(),
        on_conflict: OnConflict::Abort,
    };
    assert(t@.columns =~= chapter_size_table().columns);
    assert(t@.primary_key =~= chapter_size_table().primary_key);
    assert(t@.unique =~= chapter_size_table().unique);
    t
}

proof fn lemma_chapter_size_well_formed()
    ensures
        well_formed_table(chapter_size_table()),
{
    reveal_strlit("bookCode");
    reveal_strlit("chapterNo");
    reveal_strlit("chapterSize");
    reveal_strlit("langCode");
    reveal_strlit("transCode");
    reveal_strlit("versesCount");
    assert("bookCode"@.len() == 8);
    assert("chapterNo"@.len() == 9);
    assert("chapterSize"@.len() == 11);
    assert("langCode"@.len() == 8);
    assert("transCode"@.len() == 9);
    assert("versesCount"@.len() == 11);
    assert("bookCode"@[0] == 'b' && "langCode"@[0] == 'l');
    assert("chapterNo"@[0] == 'c' && "transCode"@[0] == 't');
    let t = chapter_size_table();
    assert(column_names(t) =~= seq!["transCode"@, "langCode"@, "bookCode"@, "chapterNo"@, "versesCount"@]);
    reveal_with_fuel(distinct_first, 6);
    reveal_with_fuel(occurs_in_first, 6);
    reveal_with_fuel(all_occur_first, 5);
}

/// Rendered chapters; a later render of a chapter replaces the stored one.
pub open spec fn html_cache_table() -> TableSpec {
    TableSpec {
        name: "htmlCache"@,
        columns: seq![
            col("transCode"@, ColumnType::Varchar, false),
            col("langCode"@, ColumnType::Varchar, false),
            col("bookCode"@, ColumnType::Varchar, false),
            col("chapterNo"@, ColumnType::Integer, false),
            col("html"@, ColumnType::Text, false),
        ],
        primary_key: seq!["transCode"@, "langCode"@, "bookCode"@, "chapterNo"@],
        unique: seq![],
        on_conflict: OnConflict::Replace,
    }
}

/// Builds the definition of [`html_cache_table`].
pub fn html_cache() -> (t: TableDef)
    ensures
        t@ == html_cache_table(),
{
    let t = TableDef {
        name: String::from_str("htmlCache"),
        columns: vec![
            column("transCode", ColumnType::Varchar, false),
            column("langCode", ColumnType::Varchar, false),
            column("bookCode", ColumnType::Varchar, false),
            column("chapterNo", ColumnType::Integer, false),
            column("html", ColumnType::Text, false),
        ],
        primary_key: strings(vec!["transCode", "langCode", "bookCode", "chapterNo"]),
        unique: Vec::new(),
        on_conflict: OnConflict::Replace,
    };
    assert(t@.columns =~= html_cache_table().columns);
    assert(t@.primary_key =~= html_cache_table().primary_key);
    assert(t@.unique =~= html_cache_table().unique);
    t
}

proof fn lemma_html_cache_well_formed()
    ensures
        well_formed_table(html_cache_table()),
{
    reveal_strlit("bookCode");
    reveal_strlit("chapterNo");
    reveal_strlit("html");
    reveal_strlit("htmlCache");
    reveal_strlit("langCode");
    reveal_strlit("transCode");
    assert("bookCode"@.len() == 8);
    assert("chapterNo"@.len() == 9);
    assert("html"@.len() == 4);
    assert("htmlCache"@.len() == 9);
    assert("langCode"@.len() == 8);
    assert("transCode"@.len() == 9);
    assert("bookCode"@[0] == 'b' && "langCode"@[0] == 'l');
    assert("chapterNo"@[0] == 'c' && "transCode"@[0] == 't');
    let t = html_cache_table();
    assert(column_names(t) =~= seq!["transCode"@, "langCode"@, "bookCode"@, "chapterNo"@, "html"@]);
    reveal_with_fuel(distinct_first, 6);
    reveal_with_fuel(occurs_in_first, 6);
    reveal_with_fuel(all_occur_first, 5);
}

/// The migrations of the reading database, in the order of their versions.
pub open spec fn registry() -> Seq<MigrationSpec> {
    seq![
        MigrationSpec {
            version: 1,
            description: "Create Bookmarks table"@,
            kind: MigrationKind::Up,
            tables: seq![bookmarks_table()],
        },
        MigrationSpec {
            version: 2,
            description: "Create languages table"@,
            kind: MigrationKind::Up,
            tables: seq![languages_table()],
        },
        MigrationSpec {
            version: 3,
            description: "Create translations table"@,
            kind: MigrationKind::Up,
            tables: seq![translations_table()],
        },
        MigrationSpec {
            version: 4,
            description: "Create translationLanguages table"@,
            kind: MigrationKind::Up,
            tables: seq![translation_languages_table()],
        },
        MigrationSpec {
            version: 5,
            description: "Create bookInfo and chapterSize tables"@,
            kind: MigrationKind::Up,
            tables: seq![books_info_table(), chapter_size_table()],
        },
        MigrationSpec {
            version: 6,
            description: "Create htmlCache table"@,
            kind: MigrationKind::Up,
            tables: seq![html_cache_table()],
        },
    ]
}

/// Builds the migrations of the reading database, versions one to six, each
/// going up.
pub fn migrations() -> (r: Vec<Migration>)
    ensures
        r@.map_values(|m: Migration| m@) == registry(),
        forall|i: int, j: int| 0 <= i < j < r.len() ==> r[i].version < r[j].version,
{
    let mut r: Vec<Migration> = Vec::new();
    let m = Migration {
        version: 1,
        description: String::from_str("Create Bookmarks table"),
        kind: MigrationKind::Up,
        tables: vec![bookmarks()],
    };
    assert(m@.tables =~= registry()[0].tables);
    r.push(m);
    let m = Migration {
        version: 2,
        description: String::from_str("Create languages table"),
        kind: MigrationKind::Up,
        tables: vec![languages()],
    };
    assert(m@.tables =~= registry()[1].tables);
    r.push(m);
    let m = Migration {
        version: 3,
        description: String::from_str("Create translations table"),
        kind: MigrationKind::Up,
        tables: vec![translations()],
    };
    assert(m@.tables =~= registry()[2].tables);
    r.push(m);
    let m = Migration {
        version: 4,
        description: String::from_str("Create translationLanguages table"),
        kind: MigrationKind::Up,
        tables: vec![translation_languages()],
    };
    assert(m@.tables =~= registry()[3].tables);
    r.push(m);
    let m = Migration {
        version: 5,
        description: String::from_str("Create bookInfo and chapterSize tables"),
        kind: MigrationKind::Up,
        tables: vec![books_info(), chapter_size()],
    };
    assert(m@.tables =~= registry()[4].tables);
    r.push(m);
    let m = Migration {
        version: 6,
        description: String::from_str("Create htmlCache table"),
        kind: MigrationKind::Up,
        tables: vec![html_cache()],
    };
    assert(m@.tables =~= registry()[5].tables);
    r.push(m);
    assert(r@.map_values(|m: Migration| m@) =~= registry());
    r
}

/// The tables of a database that all migrations have created, by name.
pub open spec fn migrated_tables() -> Map<Seq<char>, TableSpec> {
    Map::empty()
        .insert("bookmarks"@, bookmarks_table())
        .insert("languages"@, languages_table())
        .insert("translations"@, translations_table())
        .insert("translationLanguages"@, translation_languages_table())
        .insert("booksInfo"@, books_info_table())
        .insert("chapterSize"@, chapter_size_table())
        .insert("htmlCache"@, html_cache_table())
}

pub open spec fn migrated_schema() -> SchemaState {
    SchemaState {
        tables: migrated_tables(),
        applied: Set::empty().insert(1int).insert(2int).insert(3int).insert(4int).insert(5int).insert(6int),
    }
}

/// Applying the migrations in order to an empty database creates exactly
/// the seven tables of the schema, each with its columns and keys, and
/// records all six versions.
pub proof fn lemma_fresh_database_schema()
    ensures
        run_migrations(empty_schema(), registry()) == Some(migrated_schema()),
        migrated_tables().dom() =~= set![
            "bookmarks"@,
            "languages"@,
            "translations"@,
            "translationLanguages"@,
            "booksInfo"@,
            "chapterSize"@,
            "htmlCache"@,
        ],
{
    lemma_bookmarks_well_formed();
    lemma_languages_well_formed();
    lemma_translations_well_formed();
    lemma_translation_languages_well_formed();
    lemma_books_info_well_formed();
    lemma_chapter_size_well_formed();
    lemma_html_cache_well_formed();
    reveal_strlit("bookmarks");
    reveal_strlit("languages");
    reveal_strlit("translations");
    reveal_strlit("translationLanguages");
    reveal_strlit("booksInfo");
    reveal_strlit("chapterSize");
    reveal_strlit("htmlCache");
    assert("bookmarks"@.len() == 9 && "bookmarks"@[0] == 'b' && "bookmarks"@[4] == 'm');
    assert("languages"@.len() == 9 && "languages"@[0] == 'l');
    assert("translations"@.len() == 12);
    assert("translationLanguages"@.len() == 20);
    assert("booksInfo"@.len() == 9 && "booksInfo"@[0] == 'b' && "booksInfo"@[4] == 's');
    assert("chapterSize"@.len() == 11);
    assert("htmlCache"@.len() == 9 && "htmlCache"@[0] == 'h');
    reveal_with_fuel(run_first, 7);
    reveal_with_fuel(create_first, 3);
    let ms = registry();
    let s0 = empty_schema();
    assert(run_first(s0, ms, 1) is Some);
    assert(run_first(s0, ms, 2) is Some);
    assert(run_first(s0, ms, 3) is Some);
    assert(run_first(s0, ms, 4) is Some);
    assert(run_first(s0, ms, 5) is Some);
    assert(run_first(s0, ms, 6) == Some(migrated_schema()));
}

/// A second bookmark of a verse already bookmarked is dropped: exactly one
/// row is left, the first.
pub proof fn lemma_duplicate_bookmark_ignored(first: Row, second: Row)
    requires
        project(first, bookmarks_table().primary_key) == project(second, bookmarks_table().primary_key),
    ensures
        insert_two(bookmarks_table(), first, second) == Some(set![first]),
{
    let t = bookmarks_table();
    assert(Set::<Row>::empty().filter(|r: Row| collides(t, r, first)) =~= Set::empty());
    assert(collides(t, first, second));
    assert(set![first].filter(|r: Row| collides(t, r, second)).contains(first));
}

/// A second render of a cached chapter replaces the first: exactly one row
/// is left, the second.
pub proof fn lemma_html_cache_overwritten(first: Row, second: Row)
    requires
        project(first, html_cache_table().primary_key) == project(second, html_cache_table().primary_key),
    ensures
        insert_two(html_cache_table(), first, second) == Some(set![second]),
        set![second].len() == 1,
{
    let t = html_cache_table();
    assert(Set::<Row>::empty().filter(|r: Row| collides(t, r, first)) =~= Set::empty());
    assert(collides(t, first, second));
    let clash = set![first].filter(|r: Row| collides(t, r, second));
    assert(clash =~= set![first]);
    assert(set![first].difference(clash).insert(second) =~= set![second]);
}

} // verus!
