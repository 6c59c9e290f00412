use meebible::registry::{
    bookmarks, books_info, chapter_size, html_cache, languages, migrations, translation_languages,
    translations, DATABASE_URL,
};
use meebible::migration::MigrationKind;
use meebible::schema::{create_table_sql, join_strings, ColumnType, OnConflict};

#[test]
fn join_of_nothing_is_empty() {
    assert_eq!(join_strings(&Vec::new(), ", "), "");
}

#[test]
fn join_of_one_has_no_separator() {
    assert_eq!(join_strings(&vec!["a".to_string()], ", "), "a");
}

#[test]
fn join_puts_separator_between_neighbours() {
    let parts = vec!["a".to_string(), "bc".to_string(), "d".to_string()];
    assert_eq!(join_strings(&parts, ", "), "a, bc, d");
}

#[test]
fn type_and_conflict_keywords() {
    assert_eq!(ColumnType::Text.sql(), "TEXT");
    assert_eq!(ColumnType::Integer.sql(), "INTEGER");
    assert_eq!(ColumnType::Boolean.sql(), "BOOLEAN");
    assert_eq!(ColumnType::Varchar.sql(), "VARCHAR");
    assert_eq!(OnConflict::Abort.sql(), "");
    assert_eq!(OnConflict::Ignore.sql(), " ON CONFLICT IGNORE");
    assert_eq!(OnConflict::Replace.sql(), " ON CONFLICT REPLACE");
}

#[test]
fn bookmarks_statement_ignores_duplicates() {
    assert_eq!(
        create_table_sql(&bookmarks()),
        "CREATE TABLE bookmarks (\n    bookCode TEXT,\n    chapterNo INTEGER,\n    verseNo INTEGER,\n    PRIMARY KEY (bookCode, chapterNo, verseNo) ON CONFLICT IGNORE\n);"
    );
    assert_eq!(bookmarks().on_conflict, OnConflict::Ignore);
}

#[test]
fn languages_statement_requires_names() {
    assert_eq!(
        create_table_sql(&languages()),
        "CREATE TABLE languages (\n    code TEXT,\n    engname TEXT NOT NULL,\n    selfname TEXT NOT NULL,\n    PRIMARY KEY (code)\n);"
    );
}

#[test]
fn translations_statement() {
    assert_eq!(
        create_table_sql(&translations()),
        "CREATE TABLE translations (\n    transCode TEXT,\n    sourceUrl TEXT,\n    copyright TEXT,\n    rtl BOOLEAN,\n    PRIMARY KEY (transCode)\n);"
    );
}

#[test]
fn translation_languages_statement() {
    assert_eq!(
        create_table_sql(&translation_languages()),
        "CREATE TABLE translationLanguages (\n    transCode VARCHAR,\n    langCode VARCHAR,\n    name VARCHAR,\n    PRIMARY KEY (transCode, langCode)\n);"
    );
}

#[test]
fn books_info_statement_has_second_key() {
    assert_eq!(
        create_table_sql(&books_info()),
        "CREATE TABLE booksInfo (\n    transCode VARCHAR,\n    langCode VARCHAR,\n    bookNumber INTEGER,\n    bookCode VARCHAR,\n    bookName VARCHAR,\n    chaptersCount INTEGER,\n    PRIMARY KEY (transCode, langCode, bookNumber),\n    UNIQUE (transCode, langCode, bookCode)\n);"
    );
}

#[test]
fn chapter_size_statement() {
    assert_eq!(
        create_table_sql(&chapter_size()),
        "CREATE TABLE chapterSize (\n    transCode VARCHAR,\n    langCode VARCHAR,\n    bookCode VARCHAR,\n    chapterNo INTEGER,\n    versesCount INTEGER,\n    PRIMARY KEY (transCode, langCode, bookCode, chapterNo)\n);"
    );
}

#[test]
fn html_cache_statement_replaces_on_conflict() {
    assert_eq!(
        create_table_sql(&html_cache()),
        "CREATE TABLE htmlCache (\n    transCode VARCHAR,\n    langCode VARCHAR,\n    bookCode VARCHAR,\n    chapterNo INTEGER,\n    html TEXT,\n    PRIMARY KEY (transCode, langCode, bookCode, chapterNo) ON CONFLICT REPLACE\n);"
    );
    assert_eq!(html_cache().on_conflict, OnConflict::Replace);
}

#[test]
fn migrations_go_up_in_version_order() {
    let ms = migrations();
    let versions: Vec<i64> = ms.iter().map(|m| m.version).collect();
    assert_eq!(versions, vec![1, 2, 3, 4, 5, 6]);
    let descriptions: Vec<&str> = ms.iter().map(|m| m.description.as_str()).collect();
    assert_eq!(
        descriptions,
        vec![
            "Create Bookmarks table",
            "Create languages table",
            "Create translations table",
            "Create translationLanguages table",
            "Create bookInfo and chapterSize tables",
            "Create htmlCache table",
        ]
    );
    assert!(ms.iter().all(|m| m.kind == MigrationKind::Up));
}

#[test]
fn migrations_create_every_table_once() {
    let names: Vec<String> = migrations()
        .iter()
        .flat_map(|m| m.tables.iter().map(|t| t.name.clone()).collect::<Vec<_>>())
        .collect();
    assert_eq!(
        names,
        vec![
            "bookmarks",
            "languages",
            "translations",
            "translationLanguages",
            "booksInfo",
            "chapterSize",
            "htmlCache",
        ]
    );
}

#[test]
fn migration_statement_joins_its_tables() {
    let ms = migrations();
    assert_eq!(ms[0].sql(), create_table_sql(&bookmarks()));
    assert_eq!(
        ms[4].sql(),
        format!("{}\n{}", create_table_sql(&books_info()), create_table_sql(&chapter_size()))
    );
    assert_eq!(ms[5].sql(), create_table_sql(&html_cache()));
}

#[test]
fn database_file_name() {
    assert_eq!(DATABASE_URL, "sqlite:meebible.db");
}
