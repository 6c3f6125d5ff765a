use life_cost_calc::paths::data_home_components;
use life_cost_calc::migration::{Migration, Migrator, Schema, LATEST_VERSION};

#[test]
fn migrations_bring_an_absent_schema_up_to_date() {
    let mut s = Schema::absent();
    Migrator::up(&mut s);
    assert_eq!(s.version, LATEST_VERSION);
    assert!(s.categories_table && s.records_table);
    let once = s;
    Migrator::up(&mut s);
    assert_eq!(s, once);
}

#[test]
fn migrations_apply_only_the_missing_steps() {
    let mut s = Schema { version: 1, categories_table: true, records_table: false };
    Migrator::up(&mut s);
    assert_eq!(s, Schema { version: 2, categories_table: true, records_table: true });
}

#[test]
fn migrations_are_listed_in_order() {
    let steps = Migrator::migrations();
    assert_eq!(steps, vec![Migration::CreateCategoriesTable, Migration::CreateExpenseRecordsTable]);
    assert_eq!(steps[0].version(), 1);
    assert_eq!(steps[1].name(), "m20231212_000002_create_expense_records_table");
    let mut s = Schema { version: 2, categories_table: true, records_table: true };
    steps[1].down(&mut s);
    assert!(!s.records_table && s.categories_table);
    steps[1].up(&mut s);
    assert!(s.records_table);
}

#[test]
fn data_home_prefers_xdg_then_home_then_current_dir() {
    assert_eq!(data_home_components(Some("/x".to_string()), Some("/h".to_string())), vec!["/x".to_string()]);
    assert_eq!(
        data_home_components(None, Some("/h".to_string())),
        vec!["/h".to_string(), ".local".to_string(), "share".to_string()]
    );
    assert_eq!(data_home_components(None, None), vec![".".to_string()]);
}
