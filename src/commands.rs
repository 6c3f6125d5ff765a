use vstd::prelude::*;
use crate::amount::{decimal_text, total_text, DECIMAL_MAX_MANTISSA};
use crate::database::category_service::{
    self, categories_of_type, create_category_post, update_category_post, category_deleted, CategoryData,
};
use crate::database::record_service::{
    self, counted_records, create_record_post, record_deleted, records_matching, sum_amounts,
    update_record_post, ExpenseRecordData, RecordFilter,
};
use crate::database::Database;
use crate::entities::{category, expense_record};
use crate::error::DbErr;
use crate::time::{parse_rfc3339, rfc3339_outcome};

verus! {

/// `r` is the outcome `res` with its error, if any, turned into its message.
pub open spec fn reported<T>(r: Result<T, String>, res: Result<T, DbErr>) -> bool {
    match (r, res) {
        (Ok(a), Ok(b)) => a == b,
        (Err(s), Err(e)) => s@ == e.message_spec(),
        _ => false,
    }
}

/// Turns a store outcome into the caller-facing one.
fn report<T>(res: Result<T, DbErr>) -> (r: Result<T, String>)
    ensures
        reported(r, res),
{
    match res {
        Ok(v) => Ok(v),
        Err(e) => Err(e.message()),
    }
}

/// All categories, or those of kind `category_type`.
pub fn get_categories(db: &Database, category_type: Option<String>) -> (r: Result<Vec<category::Model>, String>)
    requires
        db.wf(),
    ensures
        r matches Ok(v) && v@ == categories_of_type(db@, category_type),
{
    Ok(category_service::get_categories(db, category_type))
}

/// The category with key `category_id`, or `None`.
pub fn get_category_by_id(db: &Database, category_id: String) -> (r: Result<Option<category::Model>, String>)
    requires
        db.wf(),
    ensures
        r matches Ok(o) && match o {
            Some(m) => exists|i: int|
                0 <= i < db@.categories.len() && db@.categories[i] == m && m.category_id@ == category_id@,
            None => !db@.has_key(category_id@),
        },
{
    Ok(category_service::get_category_by_id(db, category_id.as_str()))
}

/// Adds a category stamped with time `now`.
pub fn create_category(db: &mut Database, category_data: CategoryData, now: i64) -> (r: Result<category::Model, String>)
    requires
        old(db).wf(),
    ensures
        final(db).wf(),
        exists|res: Result<category::Model, DbErr>|
            create_category_post(old(db)@, final(db)@, category_data, now, res) && reported(r, res),
{
    let res = category_service::create_category(db, category_data, now);
    report(res)
}

/// Updates the category with key `category_id`, stamped with time `now`.
pub fn update_category(db: &mut Database, category_id: String, category_data: CategoryData, now: i64) -> (r: Result<category::Model, String>)
    requires
        old(db).wf(),
    ensures
        final(db).wf(),
        exists|res: Result<category::Model, DbErr>|
            update_category_post(old(db)@, final(db)@, category_id@, category_data, now, res) && reported(r, res),
{
    let res = category_service::update_category(db, category_id.as_str(), category_data, now);
    report(res)
}

/// Removes the category with key `category_id` and its records.
pub fn delete_category(db: &mut Database, category_id: String) -> (r: Result<(), String>)
    requires
        old(db).wf(),
    ensures
        final(db).wf(),
        final(db)@ == category_deleted(old(db)@, category_id@),
        r is Ok,
{
    category_service::delete_category(db, category_id.as_str());
    Ok(())
}

/// The records that pass `filter`, most recent first.
pub fn get_records(db: &Database, filter: Option<RecordFilter>) -> (r: Result<Vec<expense_record::Model>, String>)
    requires
        db.wf(),
    ensures
        r matches Ok(v) && v@ == records_matching(db@, filter),
{
    Ok(record_service::get_records(db, filter))
}

/// The record with id `id`, or `None`.
pub fn get_record_by_id(db: &Database, id: i32) -> (r: Result<Option<expense_record::Model>, String>)
    requires
        db.wf(),
    ensures
        r matches Ok(o) && match o {
            Some(m) => exists|i: int| 0 <= i < db@.records.len() && db@.records[i] == m && m.id == id,
            None => !db@.has_record(id as int),
        },
{
    Ok(record_service::get_record_by_id(db, id))
}

/// Adds a record stamped with time `now`.
pub fn create_record(db: &mut Database, record_data: ExpenseRecordData, now: i64) -> (r: Result<expense_record::Model, String>)
    requires
        old(db).wf(),
    ensures
        final(db).wf(),
        exists|res: Result<expense_record::Model, DbErr>|
            create_record_post(old(db)@, final(db)@, record_data, now, res) && reported(r, res),
{
    let res = record_service::create_record(db, record_data, now);
    report(res)
}

/// Updates the record with id `id`, stamped with time `now`.
pub fn update_record(db: &mut Database, id: i32, record_data: ExpenseRecordData, now: i64) -> (r: Result<expense_record::Model, String>)
    requires
        old(db).wf(),
    ensures
        final(db).wf(),
        exists|res: Result<expense_record::Model, DbErr>|
            update_record_post(old(db)@, final(db)@, id, record_data, now, res) && reported(r, res),
{
    let res = record_service::update_record(db, id, record_data, now);
    report(res)
}

/// Removes the record with id `id`.
pub fn delete_record(db: &mut Database, id: i32) -> (r: Result<(), String>)
    requires
        old(db).wf(),
    ensures
        final(db).wf(),
        final(db)@ == record_deleted(old(db)@, id),
        r is Ok,
{
    record_service::delete_record(db, id);
    Ok(())
}

/// The instant that an optional boundary denotes: `Ok(None)` for an absent
/// boundary, the parser's error text for one that is not an RFC 3339
/// timestamp.
pub open spec fn parsed_bound(s: Option<String>) -> Result<Option<i64>, Seq<char>> {
    match s {
        None => Ok(None),
        Some(t) => match rfc3339_outcome(t@) {
            Ok(x) => Ok(Some(x)),
            Err(e) => Err(e),
        },
    }
}

fn parse_bound(s: &Option<String>) -> (r: Result<Option<i64>, String>)
    ensures
        match r {
            Ok(b) => parsed_bound(*s) == Ok::<Option<i64>, Seq<char>>(b),
            Err(e) => parsed_bound(*s) == Err::<Option<i64>, Seq<char>>(e@),
        },
{
    match s {
        None => Ok(None),
        Some(t) => match parse_rfc3339(t.as_str()) {
            Ok(x) => Ok(Some(x)),
            Err(e) => Err(e),
        },
    }
}

/// The message for a start boundary that does not parse, given the parser's error.
pub open spec fn start_date_error(e: Seq<char>) -> Seq<char> {
    "Invalid start date: "@ + e
}

/// The message for an end boundary that does not parse, given the parser's error.
pub open spec fn end_date_error(e: Seq<char>) -> Seq<char> {
    "Invalid end date: "@ + e
}

/// What `get_statistics` answers for a total over already parsed bounds.
pub open spec fn statistics_reply(total: int) -> Result<Seq<char>, Seq<char>> {
    if -DECIMAL_MAX_MANTISSA <= total <= DECIMAL_MAX_MANTISSA {
        Ok(decimal_text(total as i128))
    } else {
        Err(DbErr::TotalOutOfRange.message_spec())
    }
}

/// The total of the amounts of the records of kind `record_type` created
/// between the RFC 3339 timestamps `start_date` and `end_date` (inclusive),
/// written as a decimal number. A boundary that does not parse is rejected
/// with a message that names it and carries the parser's error, the start
/// checked first; the store is then not read.
pub fn get_statistics(
    db: &Database,
    record_type: Option<String>,
    start_date: Option<String>,
    end_date: Option<String>,
) -> (r: Result<String, String>)
    requires
        db.wf(),
    ensures
        match (parsed_bound(start_date), parsed_bound(end_date)) {
            (Err(e), _) => r matches Err(m) && m@ == start_date_error(e),
            (Ok(_), Err(e)) => r matches Err(m) && m@ == end_date_error(e),
            (Ok(s), Ok(e)) => {
                let want = statistics_reply(sum_amounts(counted_records(db@, record_type, s, e)));
                match r {
                    Ok(t) => want == Ok::<Seq<char>, Seq<char>>(t@),
                    Err(m) => want == Err::<Seq<char>, Seq<char>>(m@),
                }
            },
        },
{
    let start = match parse_bound(&start_date) {
        Ok(s) => s,
        Err(e) => {
            return Err(String::from_str("Invalid start date: ").concat(e.as_str()));
        },
    };
    let end = match parse_bound(&end_date) {
        Ok(b) => b,
        Err(e) => {
            return Err(String::from_str("Invalid end date: ").concat(e.as_str()));
        },
    };
    let total = record_service::get_statistics(db, record_type, start, end);
    if -DECIMAL_MAX_MANTISSA <= total && total <= DECIMAL_MAX_MANTISSA {
        Ok(total_text(total))
    } else {
        Err(DbErr::TotalOutOfRange.message())
    }
}

} // verus!
