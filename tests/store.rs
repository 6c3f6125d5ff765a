use life_cost_calc::amount::Amount;
use life_cost_calc::commands;
use life_cost_calc::database::category_service::{
    create_category, delete_category, get_categories, get_category_by_id, initialize_default_categories,
    update_category, CategoryData,
};
use life_cost_calc::database::defaults::{default_categories, DEFAULT_CATEGORY_COUNT};
use life_cost_calc::database::record_service::{
    create_record, delete_record, get_record_by_id, get_records, get_statistics, update_record,
    ExpenseRecordData, RecordFilter,
};
use life_cost_calc::database::Database;
use life_cost_calc::error::DbErr;

fn cat(key: &str, kind: &str) -> CategoryData {
    CategoryData {
        category_id: key.to_string(),
        name: format!("{} name", key),
        icon: "icon".to_string(),
        color: "blue".to_string(),
        category_type: kind.to_string(),
    }
}

fn rec(kind: &str, key: &str, minor: i64) -> ExpenseRecordData {
    ExpenseRecordData {
        record_type: kind.to_string(),
        category_id: key.to_string(),
        amount: Amount::from_minor(minor),
        note: None,
    }
}

#[test]
fn created_category_is_found_by_key() {
    let mut db = Database::new();
    let made = create_category(&mut db, cat("food", "expense"), 100).unwrap();
    assert_eq!(made.id, 1);
    assert_eq!(made.created_at, 100);
    assert_eq!(made.updated_at, 100);
    let found = get_category_by_id(&db, "food").unwrap();
    assert_eq!(found.id, made.id);
    assert_eq!(found.category_id, "food");
    assert_eq!(found.name, "food name");
    assert_eq!(found.category_type, "expense");
    assert!(get_category_by_id(&db, "rent").is_none());
}

#[test]
fn updated_category_keeps_key_and_creation_time() {
    let mut db = Database::new();
    create_category(&mut db, cat("food", "expense"), 100).unwrap();
    let mut data = cat("ignored", "income");
    data.name = "Meals".to_string();
    let updated = update_category(&mut db, "food", data, 200).unwrap();
    assert_eq!(updated.category_id, "food");
    assert_eq!(updated.name, "Meals");
    assert_eq!(updated.category_type, "income");
    assert_eq!(updated.created_at, 100);
    assert_eq!(updated.updated_at, 200);
    let found = get_category_by_id(&db, "food").unwrap();
    assert_eq!(found.name, "Meals");
    assert!(get_category_by_id(&db, "ignored").is_none());
}

#[test]
fn update_of_missing_category_is_not_found() {
    let mut db = Database::new();
    create_category(&mut db, cat("food", "expense"), 100).unwrap();
    let r = update_category(&mut db, "rent", cat("rent", "expense"), 200);
    assert_eq!(r.unwrap_err(), DbErr::CategoryNotFound);
    assert_eq!(db.category_count(), 1);
}

#[test]
fn duplicate_category_key_conflicts() {
    let mut db = Database::new();
    create_category(&mut db, cat("food", "expense"), 100).unwrap();
    let r = create_category(&mut db, cat("food", "income"), 200);
    assert_eq!(r.unwrap_err(), DbErr::Conflict);
    assert_eq!(db.category_count(), 1);
    assert_eq!(get_category_by_id(&db, "food").unwrap().category_type, "expense");
}

#[test]
fn categories_filtered_by_kind() {
    let mut db = Database::new();
    create_category(&mut db, cat("food", "expense"), 1).unwrap();
    create_category(&mut db, cat("salary", "income"), 2).unwrap();
    create_category(&mut db, cat("rent", "expense"), 3).unwrap();
    let all = get_categories(&db, None);
    assert_eq!(all.len(), 3);
    let expenses = get_categories(&db, Some("expense".to_string()));
    let keys: Vec<&str> = expenses.iter().map(|c| c.category_id.as_str()).collect();
    assert_eq!(keys, vec!["food", "rent"]);
    assert_eq!(get_categories(&db, Some("income".to_string())).len(), 1);
}

#[test]
fn delete_category_cascades_to_records() {
    let mut db = Database::new();
    create_category(&mut db, cat("food", "expense"), 1).unwrap();
    create_category(&mut db, cat("rent", "expense"), 2).unwrap();
    create_record(&mut db, rec("expense", "food", 10000), 10).unwrap();
    create_record(&mut db, rec("expense", "rent", 20000), 11).unwrap();
    create_record(&mut db, rec("expense", "food", 30000), 12).unwrap();
    delete_category(&mut db, "food");
    assert!(get_category_by_id(&db, "food").is_none());
    let left = get_records(&db, None);
    assert_eq!(left.len(), 1);
    assert_eq!(left[0].category_id, "rent");
}

#[test]
fn deleting_missing_category_changes_nothing() {
    let mut db = Database::new();
    create_category(&mut db, cat("food", "expense"), 1).unwrap();
    create_record(&mut db, rec("expense", "food", 10000), 10).unwrap();
    delete_category(&mut db, "rent");
    assert_eq!(db.category_count(), 1);
    assert_eq!(db.record_count(), 1);
}

#[test]
fn seeding_fills_an_empty_table_once() {
    let mut db = Database::new();
    initialize_default_categories(&mut db, 5).unwrap();
    assert_eq!(db.category_count(), DEFAULT_CATEGORY_COUNT);
    assert_eq!(get_categories(&db, Some("expense".to_string())).len(), 34);
    assert_eq!(get_categories(&db, Some("income".to_string())).len(), 6);
    let food = get_category_by_id(&db, "food").unwrap();
    assert_eq!(food.name, "餐饮");
    assert_eq!(food.icon, "restaurant");
    assert_eq!(food.id, 1);
    let other = get_category_by_id(&db, "other").unwrap();
    assert_eq!(other.category_type, "income");
    assert_eq!(other.id, 40);
    initialize_default_categories(&mut db, 6).unwrap();
    assert_eq!(db.category_count(), DEFAULT_CATEGORY_COUNT);
}

#[test]
fn seeding_skips_a_table_that_has_a_category() {
    let mut db = Database::new();
    create_category(&mut db, cat("mine", "expense"), 1).unwrap();
    initialize_default_categories(&mut db, 2).unwrap();
    assert_eq!(db.category_count(), 1);
    assert!(get_category_by_id(&db, "food").is_none());
}

#[test]
fn default_catalog_has_distinct_keys() {
    let catalog = default_categories();
    assert_eq!(catalog.len(), DEFAULT_CATEGORY_COUNT);
    for i in 0..catalog.len() {
        for j in 0..i {
            assert_ne!(catalog[i].category_id, catalog[j].category_id);
        }
    }
}

#[test]
fn record_needs_an_existing_category() {
    let mut db = Database::new();
    let r = create_record(&mut db, rec("expense", "food", 100), 1);
    assert_eq!(r.unwrap_err(), DbErr::MissingCategory);
    assert_eq!(db.record_count(), 0);
}

#[test]
fn records_list_most_recent_first() {
    let mut db = Database::new();
    create_category(&mut db, cat("food", "expense"), 1).unwrap();
    create_record(&mut db, rec("expense", "food", 1), 20).unwrap();
    create_record(&mut db, rec("expense", "food", 2), 40).unwrap();
    create_record(&mut db, rec("expense", "food", 3), 30).unwrap();
    let times: Vec<i64> = get_records(&db, None).iter().map(|r| r.created_at).collect();
    assert_eq!(times, vec![40, 30, 20]);
}

#[test]
fn time_window_listing_is_inclusive() {
    let mut db = Database::new();
    create_category(&mut db, cat("food", "expense"), 1).unwrap();
    create_category(&mut db, cat("salary", "income"), 1).unwrap();
    for (t, kind, key) in [(10, "expense", "food"), (20, "income", "salary"), (30, "expense", "food"), (40, "income", "salary")] {
        create_record(&mut db, rec(kind, key, 100), t).unwrap();
    }
    let f = RecordFilter { record_type: None, category_id: None, start_date: Some(20), end_date: Some(30) };
    let times: Vec<i64> = get_records(&db, Some(f)).iter().map(|r| r.created_at).collect();
    assert_eq!(times, vec![30, 20]);
    let f = RecordFilter { record_type: Some("income".to_string()), category_id: None, start_date: None, end_date: None };
    assert_eq!(get_records(&db, Some(f)).len(), 2);
    let f = RecordFilter { record_type: None, category_id: Some("food".to_string()), start_date: Some(15), end_date: None };
    assert_eq!(get_records(&db, Some(f)).len(), 1);
}

#[test]
fn update_missing_record_is_not_found() {
    let mut db = Database::new();
    create_category(&mut db, cat("food", "expense"), 1).unwrap();
    create_record(&mut db, rec("expense", "food", 125000), 10).unwrap();
    let r = update_record(&mut db, 99, rec("expense", "food", 5), 20);
    assert_eq!(r.unwrap_err(), DbErr::RecordNotFound);
    let all = get_records(&db, None);
    assert_eq!(all.len(), 1);
    assert_eq!(all[0].amount, Amount::from_minor(125000));
    assert_eq!(all[0].updated_at, 10);
}

#[test]
fn update_record_to_missing_category_fails() {
    let mut db = Database::new();
    create_category(&mut db, cat("food", "expense"), 1).unwrap();
    let made = create_record(&mut db, rec("expense", "food", 100), 10).unwrap();
    let r = update_record(&mut db, made.id, rec("expense", "rent", 5), 20);
    assert_eq!(r.unwrap_err(), DbErr::MissingCategory);
    assert_eq!(get_record_by_id(&db, made.id).unwrap().amount, Amount::from_minor(100));
}

#[test]
fn update_record_overwrites_fields() {
    let mut db = Database::new();
    create_category(&mut db, cat("food", "expense"), 1).unwrap();
    create_category(&mut db, cat("salary", "income"), 1).unwrap();
    let made = create_record(&mut db, rec("expense", "food", 100), 10).unwrap();
    let mut data = rec("income", "salary", 900);
    data.note = Some("march".to_string());
    let updated = update_record(&mut db, made.id, data, 20).unwrap();
    assert_eq!(updated.id, made.id);
    assert_eq!(updated.created_at, 10);
    assert_eq!(updated.updated_at, 20);
    let found = get_record_by_id(&db, made.id).unwrap();
    assert_eq!(found.record_type, "income");
    assert_eq!(found.category_id, "salary");
    assert_eq!(found.amount, Amount::from_minor(900));
    assert_eq!(found.note, Some("march".to_string()));
}

#[test]
fn delete_record_is_idempotent() {
    let mut db = Database::new();
    create_category(&mut db, cat("food", "expense"), 1).unwrap();
    let a = create_record(&mut db, rec("expense", "food", 100), 10).unwrap();
    let b = create_record(&mut db, rec("expense", "food", 200), 11).unwrap();
    assert_ne!(a.id, b.id);
    delete_record(&mut db, a.id);
    assert!(get_record_by_id(&db, a.id).is_none());
    delete_record(&mut db, a.id);
    assert_eq!(db.record_count(), 1);
    assert!(get_record_by_id(&db, b.id).is_some());
}

#[test]
fn record_ids_are_never_reused() {
    let mut db = Database::new();
    create_category(&mut db, cat("food", "expense"), 1).unwrap();
    let a = create_record(&mut db, rec("expense", "food", 100), 10).unwrap();
    delete_record(&mut db, a.id);
    let b = create_record(&mut db, rec("expense", "food", 100), 10).unwrap();
    assert!(b.id > a.id);
}

#[test]
fn total_of_nothing_is_zero() {
    let db = Database::new();
    assert_eq!(get_statistics(&db, None, None, None), 0);
}

#[test]
fn total_of_equal_amounts_is_exact() {
    let mut db = Database::new();
    create_category(&mut db, cat("food", "expense"), 1).unwrap();
    for t in 0..1000 {
        create_record(&mut db, rec("expense", "food", 1), t).unwrap();
    }
    assert_eq!(get_statistics(&db, None, None, None), 1000);
    let mut db = Database::new();
    create_category(&mut db, cat("food", "expense"), 1).unwrap();
    for t in 0..7 {
        create_record(&mut db, rec("expense", "food", i64::MAX), t).unwrap();
    }
    assert_eq!(get_statistics(&db, None, None, None), 7 * (i64::MAX as i128));
}

#[test]
fn total_respects_kind_and_bounds() {
    let mut db = Database::new();
    create_category(&mut db, cat("food", "expense"), 1).unwrap();
    create_category(&mut db, cat("salary", "income"), 1).unwrap();
    create_record(&mut db, rec("expense", "food", 100), 10).unwrap();
    create_record(&mut db, rec("expense", "food", 200), 20).unwrap();
    create_record(&mut db, rec("income", "salary", 5000), 20).unwrap();
    create_record(&mut db, rec("expense", "food", 400), 30).unwrap();
    assert_eq!(get_statistics(&db, Some("expense".to_string()), None, None), 700);
    assert_eq!(get_statistics(&db, Some("expense".to_string()), Some(20), Some(30)), 600);
    assert_eq!(get_statistics(&db, None, Some(20), Some(20)), 5200);
    assert_eq!(get_statistics(&db, None, None, Some(9)), 0);
}

#[test]
fn food_scenario_sums_then_cascades() {
    let mut db = Database::new();
    create_category(&mut db, cat("food", "expense"), 1).unwrap();
    create_record(&mut db, rec("expense", "food", 125000), 10).unwrap();
    create_record(&mut db, rec("expense", "food", 72500), 11).unwrap();
    assert_eq!(get_statistics(&db, Some("expense".to_string()), None, None), 197500);
    let text = commands::get_statistics(&db, Some("expense".to_string()), None, None).unwrap();
    assert_eq!(text, "19.75");
    delete_category(&mut db, "food");
    assert!(get_records(&db, None).is_empty());
}
