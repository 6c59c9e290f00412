use meebible::migration::{Migration, MigrationKind};
use meebible::registry::{bookmarks, html_cache, languages, migrations};
use meebible::schema::{Column, ColumnType, OnConflict, TableDef};
use meebible::validate::{failing_step, occurs_in};

fn step(version: i64, kind: MigrationKind, tables: Vec<TableDef>) -> Migration {
    Migration { version, description: format!("step {}", version), kind, tables }
}

fn text_column(name: &str) -> Column {
    Column { name: name.to_string(), ty: ColumnType::Text, not_null: false }
}

fn table(name: &str, columns: &[&str], key: &[&str], unique: Vec<Vec<String>>) -> TableDef {
    TableDef {
        name: name.to_string(),
        columns: columns.iter().map(|c| text_column(c)).collect(),
        primary_key: key.iter().map(|c| c.to_string()).collect(),
        unique,
        on_conflict: OnConflict::Abort,
    }
}

#[test]
fn every_schema_table_is_well_formed() {
    for m in migrations() {
        for t in &m.tables {
            assert!(t.is_well_formed(), "{}", t.name);
        }
    }
}

#[test]
fn schema_runs_on_a_new_database() {
    assert_eq!(failing_step(&migrations()), None);
}

#[test]
fn empty_list_runs() {
    assert_eq!(failing_step(&Vec::new()), None);
}

#[test]
fn duplicate_column_is_malformed() {
    let t = table("t", &["a", "a"], &["a"], Vec::new());
    assert!(!t.is_well_formed());
}

#[test]
fn table_without_columns_is_malformed() {
    let t = table("t", &[], &["a"], Vec::new());
    assert!(!t.is_well_formed());
}

#[test]
fn table_without_key_is_malformed() {
    let t = table("t", &["a"], &[], Vec::new());
    assert!(!t.is_well_formed());
}

#[test]
fn key_on_unknown_column_is_malformed() {
    let t = table("t", &["a", "b"], &["a", "c"], Vec::new());
    assert!(!t.is_well_formed());
}

#[test]
fn unique_group_on_unknown_column_is_malformed() {
    let t = table("t", &["a", "b"], &["a"], vec![vec!["b".to_string(), "z".to_string()]]);
    assert!(!t.is_well_formed());
    let empty_group = table("t", &["a", "b"], &["a"], vec![Vec::new()]);
    assert!(!empty_group.is_well_formed());
    let fine = table("t", &["a", "b"], &["a"], vec![vec!["b".to_string()]]);
    assert!(fine.is_well_formed());
}

#[test]
fn malformed_step_fails_the_run() {
    let ms = vec![
        step(1, MigrationKind::Up, vec![bookmarks()]),
        step(2, MigrationKind::Up, vec![languages(), table("broken", &["x", "x"], &["x"], Vec::new())]),
        step(3, MigrationKind::Up, vec![html_cache()]),
    ];
    assert_eq!(failing_step(&ms), Some(1));
}

#[test]
fn creating_a_table_twice_fails_the_run() {
    let ms = vec![
        step(1, MigrationKind::Up, vec![bookmarks()]),
        step(2, MigrationKind::Up, vec![html_cache(), bookmarks()]),
    ];
    assert_eq!(failing_step(&ms), Some(1));
}

#[test]
fn step_of_an_applied_version_is_skipped() {
    let ms = vec![
        step(1, MigrationKind::Up, vec![bookmarks()]),
        step(1, MigrationKind::Up, vec![bookmarks()]),
    ];
    assert_eq!(failing_step(&ms), None);
}

#[test]
fn down_step_is_skipped() {
    let ms = vec![
        step(1, MigrationKind::Up, vec![bookmarks()]),
        step(2, MigrationKind::Down, vec![bookmarks()]),
    ];
    assert_eq!(failing_step(&ms), None);
}

#[test]
fn occurs_in_looks_at_a_prefix_only() {
    let names = vec!["a".to_string(), "b".to_string(), "c".to_string()];
    assert!(occurs_in(&names, 3, &"c".to_string()));
    assert!(!occurs_in(&names, 2, &"c".to_string()));
    assert!(!occurs_in(&names, 0, &"a".to_string()));
}
