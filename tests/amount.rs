use life_cost_calc::amount::Amount;
use life_cost_calc::database::category_service::{create_category, CategoryData};
use life_cost_calc::database::record_service::{create_record, ExpenseRecordData};
use life_cost_calc::database::{establish_connection, Database};
use life_cost_calc::error::DbErr;
use life_cost_calc::migration::Schema;

#[test]
fn scaled_values_become_ten_thousandths() {
    assert_eq!(Amount::from_scaled(1250, 2), Some(Amount::from_minor(125000)));
    assert_eq!(Amount::from_scaled(725, 2), Some(Amount::from_minor(72500)));
    assert_eq!(Amount::from_scaled(-1250, 2), Some(Amount::from_minor(-125000)));
    assert_eq!(Amount::from_scaled(7, 0), Some(Amount::from_minor(70000)));
    assert_eq!(Amount::from_scaled(12345, 4), Some(Amount::from_minor(12345)));
    assert_eq!(Amount::from_scaled(1234500, 6), Some(Amount::from_minor(12345)));
    assert_eq!(Amount::from_scaled(-1234500, 6), Some(Amount::from_minor(-12345)));
    assert_eq!(Amount::from_scaled(0, 28), Some(Amount::from_minor(0)));
}

#[test]
fn scaled_values_out_of_reach_are_refused() {
    assert_eq!(Amount::from_scaled(12345, 5), None);
    assert_eq!(Amount::from_scaled(-1, 28), None);
    assert_eq!(Amount::from_scaled(i64::MAX as i128, 0), None);
    assert_eq!(Amount::from_scaled(i64::MAX as i128, 4), Some(Amount::from_minor(i64::MAX)));
    assert_eq!(Amount::from_scaled(i64::MIN as i128, 4), Some(Amount::from_minor(i64::MIN)));
    assert_eq!(Amount::from_scaled(i64::MIN as i128 - 1, 4), None);
    assert_eq!(Amount::from_scaled(i128::MAX, 0), None);
    assert_eq!(Amount::from_scaled(i128::MIN, 3), None);
}

#[test]
fn bootstrap_opens_a_migrated_store() {
    let mut schema = Schema::absent();
    let db = establish_connection(&mut schema, Database::new()).unwrap();
    assert_eq!(db.category_count(), 0);
    assert_eq!(db.record_count(), 0);
    assert_eq!(schema, Schema { version: 2, categories_table: true, records_table: true });
}

#[test]
fn bootstrap_refuses_a_broken_schema() {
    let mut schema = Schema { version: 2, categories_table: true, records_table: false };
    let r = establish_connection(&mut schema, Database::new());
    assert_eq!(r.err(), Some(DbErr::StoreUnavailable));
    assert_eq!(DbErr::StoreUnavailable.message(), "The store is unavailable");
}

fn saved_store() -> Database {
    let mut db = Database::new();
    create_category(&mut db, CategoryData {
        category_id: "food".to_string(),
        name: "Food".to_string(),
        icon: "i".to_string(),
        color: "c".to_string(),
        category_type: "expense".to_string(),
    }, 1).unwrap();
    create_record(&mut db, ExpenseRecordData {
        record_type: "expense".to_string(),
        category_id: "food".to_string(),
        amount: Amount::from_minor(125000),
        note: None,
    }, 5).unwrap();
    db
}

fn reload(db: &Database) -> Option<Database> {
    let cats = db.categories().iter().map(|c| c.duplicate()).collect();
    let recs = db.records().iter().map(|r| r.duplicate()).collect();
    Database::from_rows(cats, recs, db.next_category_id(), db.next_record_id())
}

#[test]
fn saved_rows_reopen_unchanged() {
    let db = saved_store();
    let again = reload(&db).unwrap();
    assert_eq!(again.category_count(), 1);
    assert_eq!(again.record_count(), 1);
    assert_eq!(again.next_category_id(), 2);
    assert_eq!(again.next_record_id(), 2);
    let mut schema = Schema { version: 2, categories_table: true, records_table: true };
    let opened = establish_connection(&mut schema, again).unwrap();
    assert_eq!(opened.records()[0].amount, Amount::from_minor(125000));
    assert_eq!(opened.categories()[0].category_id, "food");
    assert_eq!(schema, Schema { version: 2, categories_table: true, records_table: true });
}

#[test]
fn broken_rows_are_refused() {
    let db = saved_store();
    let cats: Vec<_> = db.categories().iter().map(|c| c.duplicate()).collect();
    let recs: Vec<_> = db.records().iter().map(|r| r.duplicate()).collect();
    assert!(Database::from_rows(Vec::new(), recs, 2, 2).is_none());
    let recs: Vec<_> = db.records().iter().map(|r| r.duplicate()).collect();
    assert!(Database::from_rows(cats, recs, 1, 2).is_none());
    let mut twice: Vec<_> = db.categories().iter().map(|c| c.duplicate()).collect();
    let mut copy = twice[0].duplicate();
    copy.id = 2;
    twice.push(copy);
    assert!(Database::from_rows(twice, Vec::new(), 3, 1).is_none());
    assert!(Database::from_rows(Vec::new(), Vec::new(), 0, 1).is_none());
    assert!(Database::from_rows(Vec::new(), Vec::new(), 1, 1).is_some());
}
