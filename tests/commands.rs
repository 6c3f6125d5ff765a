use life_cost_calc::amount::Amount;
use life_cost_calc::commands;
use life_cost_calc::database::category_service::CategoryData;
use life_cost_calc::database::record_service::ExpenseRecordData;
use life_cost_calc::database::Database;
use life_cost_calc::error::DbErr;

/// 2023-11-14T22:13:20Z in microseconds since the Unix epoch.
const NOW: i64 = 1_700_000_000_000_000;

fn data(key: &str) -> CategoryData {
    CategoryData {
        category_id: key.to_string(),
        name: key.to_string(),
        icon: "i".to_string(),
        color: "c".to_string(),
        category_type: "expense".to_string(),
    }
}

fn spend(key: &str, minor: i64) -> ExpenseRecordData {
    ExpenseRecordData {
        record_type: "expense".to_string(),
        category_id: key.to_string(),
        amount: Amount::from_minor(minor),
        note: Some("n".to_string()),
    }
}

#[test]
fn command_errors_are_messages() {
    let mut db = Database::new();
    commands::create_category(&mut db, data("food"), NOW).unwrap();
    let e = commands::create_category(&mut db, data("food"), NOW).unwrap_err();
    assert_eq!(e, DbErr::Conflict.message());
    let e = commands::update_record(&mut db, 7, spend("food", 1), NOW).unwrap_err();
    assert_eq!(e, "Record not found");
    let e = commands::update_category(&mut db, "rent".to_string(), data("rent"), NOW).unwrap_err();
    assert_eq!(e, "Category not found");
    let e = commands::create_record(&mut db, spend("rent", 1), NOW).unwrap_err();
    assert_eq!(e, DbErr::MissingCategory.message());
}

#[test]
fn command_round_trip() {
    let mut db = Database::new();
    let c = commands::create_category(&mut db, data("food"), NOW).unwrap();
    assert_eq!(c.created_at, NOW);
    assert_eq!(c.updated_at, NOW);
    let r = commands::create_record(&mut db, spend("food", 5), NOW).unwrap();
    assert_eq!(commands::get_record_by_id(&db, r.id).unwrap().unwrap().note, Some("n".to_string()));
    assert_eq!(commands::get_records(&db, None).unwrap().len(), 1);
    assert_eq!(commands::get_categories(&db, None).unwrap().len(), 1);
    let u = commands::update_category(&mut db, "food".to_string(), data("x"), NOW).unwrap();
    assert_eq!(u.category_id, "food");
    assert!(commands::get_category_by_id(&db, "food".to_string()).unwrap().is_some());
    commands::delete_record(&mut db, r.id).unwrap();
    assert!(commands::get_records(&db, None).unwrap().is_empty());
    commands::delete_category(&mut db, "food".to_string()).unwrap();
    assert!(commands::get_category_by_id(&db, "food".to_string()).unwrap().is_none());
}

#[test]
fn statistics_reject_bad_boundaries() {
    let db = Database::new();
    let e = commands::get_statistics(&db, None, Some("yesterday".to_string()), Some("also bad".to_string())).unwrap_err();
    assert!(e.starts_with("Invalid start date: "));
    assert!(e.len() > "Invalid start date: ".len());
    let e = commands::get_statistics(&db, None, Some("2024-01-01T00:00:00Z".to_string()), Some("bad".to_string())).unwrap_err();
    assert!(e.starts_with("Invalid end date: "));
    assert!(e.len() > "Invalid end date: ".len());
}

#[test]
fn statistics_render_exact_decimals() {
    let mut db = Database::new();
    commands::create_category(&mut db, data("food"), NOW).unwrap();
    assert_eq!(commands::get_statistics(&db, None, None, None).unwrap(), "0");
    commands::create_record(&mut db, spend("food", 1), NOW).unwrap();
    commands::create_record(&mut db, spend("food", 1), NOW).unwrap();
    commands::create_record(&mut db, spend("food", 1), NOW).unwrap();
    assert_eq!(commands::get_statistics(&db, Some("expense".to_string()), None, None).unwrap(), "0.0003");
    let past = commands::get_statistics(
        &db,
        None,
        Some("2000-01-01T00:00:00+08:00".to_string()),
        Some("2000-12-31T23:59:59Z".to_string()),
    )
    .unwrap();
    assert_eq!(past, "0");
    let all = commands::get_statistics(&db, None, Some("2000-01-01T00:00:00Z".to_string()), None).unwrap();
    assert_eq!(all, "0.0003");
}

#[test]
fn statistics_render_signs_and_whole_numbers() {
    let mut db = Database::new();
    commands::create_category(&mut db, data("food"), NOW).unwrap();
    commands::create_record(&mut db, spend("food", 20000), NOW).unwrap();
    assert_eq!(commands::get_statistics(&db, None, None, None).unwrap(), "2");
    commands::create_record(&mut db, spend("food", -32500), NOW).unwrap();
    assert_eq!(commands::get_statistics(&db, None, None, None).unwrap(), "-1.25");
    commands::create_record(&mut db, spend("food", 12500), NOW).unwrap();
    assert_eq!(commands::get_statistics(&db, None, None, None).unwrap(), "0");
    commands::create_record(&mut db, spend("food", 1000000), NOW).unwrap();
    assert_eq!(commands::get_statistics(&db, None, None, None).unwrap(), "100");
}
