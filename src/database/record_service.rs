use vstd::prelude::*;
use crate::amount::Amount;
use crate::database::{find_category, find_record, lemma_filter_positions, text_matches, Database, DbView};
use crate::entities::expense_record;
use crate::error::DbErr;

verus! {

/// The caller-supplied fields of a record.
#[derive(Debug)]
pub struct ExpenseRecordData {
    pub record_type: String,
    pub category_id: String,
    pub amount: Amount,
    pub note: Option<String>,
}

/// Which records a listing keeps. A field left `None` keeps every record;
/// the time bounds are inclusive, in microseconds since the Unix epoch.
#[derive(Debug)]
pub struct RecordFilter {
    pub record_type: Option<String>,
    pub category_id: Option<String>,
    pub start_date: Option<i64>,
    pub end_date: Option<i64>,
}

/// `t` lies within the optional inclusive bounds `start` and `end`.
pub open spec fn in_range(t: i64, start: Option<i64>, end: Option<i64>) -> bool {
    &&& (start matches Some(s) ==> s <= t)
    &&& (end matches Some(e) ==> t <= e)
}

/// Record `m` passes `filter`; no filter passes every record.
pub open spec fn record_matches(filter: Option<RecordFilter>, m: expense_record::Model) -> bool {
    match filter {
        None => true,
        Some(f) => {
            &&& text_matches(f.record_type, m.record_type)
            &&& text_matches(f.category_id, m.category_id)
            &&& in_range(m.created_at, f.start_date, f.end_date)
        },
    }
}

/// The test that `filter` puts to a record.
pub open spec fn matcher(filter: Option<RecordFilter>) -> spec_fn(expense_record::Model) -> bool {
    |m: expense_record::Model| record_matches(filter, m)
}

/// The records of `v` that pass `filter`, most recent first.
pub open spec fn records_matching(v: DbView, filter: Option<RecordFilter>) -> Seq<expense_record::Model> {
    v.records.filter(matcher(filter))
}

/// Record `m` counts toward a total over kind `record_type` and the bounds.
pub open spec fn counted(record_type: Option<String>, start: Option<i64>, end: Option<i64>, m: expense_record::Model) -> bool {
    text_matches(record_type, m.record_type) && in_range(m.created_at, start, end)
}

/// The records of `v` that a total over kind `record_type` and the bounds adds up.
pub open spec fn counted_records(v: DbView, record_type: Option<String>, start: Option<i64>, end: Option<i64>) -> Seq<expense_record::Model> {
    v.records.filter(|m: expense_record::Model| counted(record_type, start, end, m))
}

/// Sum of the amounts of `s`, in ten-thousandths of a unit.
pub open spec fn sum_amounts(s: Seq<expense_record::Model>) -> int
    decreases s.len(),
{
    if s.len() == 0 {
        0
    } else {
        sum_amounts(s.drop_last()) + s.last().amount.minor
    }
}

/// The row that `create_record` stores for `data` at time `now`.
pub open spec fn created_record(id: int, data: ExpenseRecordData, now: i64) -> expense_record::Model {
    expense_record::Model {
        id: id as i32,
        record_type: data.record_type,
        category_id: data.category_id,
        amount: data.amount,
        note: data.note,
        created_at: now,
        updated_at: now,
    }
}

/// `old` with kind, category, amount and note taken from `data` and its update
/// time set to `now`; its id and creation time stay.
pub open spec fn updated_record(old: expense_record::Model, data: ExpenseRecordData, now: i64) -> expense_record::Model {
    expense_record::Model {
        id: old.id,
        record_type: data.record_type,
        category_id: data.category_id,
        amount: data.amount,
        note: data.note,
        created_at: old.created_at,
        updated_at: now,
    }
}

/// What `create_record` does to a store and returns: the new record goes in
/// after every record at least as recent and before every older one.
pub open spec fn create_record_post(
    old: DbView,
    new: DbView,
    data: ExpenseRecordData,
    now: i64,
    r: Result<expense_record::Model, DbErr>,
) -> bool {
    if !old.has_key(data.category_id@) {
        r == Err::<expense_record::Model, DbErr>(DbErr::MissingCategory) && new == old
    } else if old.next_record_id == i32::MAX {
        r == Err::<expense_record::Model, DbErr>(DbErr::IdsExhausted) && new == old
    } else {
        let m = created_record(old.next_record_id, data, now);
        &&& r == Ok::<expense_record::Model, DbErr>(m)
        &&& exists|p: int|
            0 <= p <= old.records.len()
            && (forall|i: int| 0 <= i < p ==> #[trigger] old.records[i].created_at >= now)
            && (forall|i: int| p <= i < old.records.len() ==> #[trigger] old.records[i].created_at < now)
            && new == DbView {
                records: old.records.insert(p, m),
                next_record_id: old.next_record_id + 1,
                ..old
            }
    }
}

/// What `update_record` does to a store and returns.
pub open spec fn update_record_post(
    old: DbView,
    new: DbView,
    id: i32,
    data: ExpenseRecordData,
    now: i64,
    r: Result<expense_record::Model, DbErr>,
) -> bool {
    if !old.has_record(id as int) {
        r == Err::<expense_record::Model, DbErr>(DbErr::RecordNotFound) && new == old
    } else if !old.has_key(data.category_id@) {
        r == Err::<expense_record::Model, DbErr>(DbErr::MissingCategory) && new == old
    } else {
        exists|i: int|
            0 <= i < old.records.len() && #[trigger] old.records[i].id == id && {
                let m = updated_record(old.records[i], data, now);
                &&& r == Ok::<expense_record::Model, DbErr>(m)
                &&& new == DbView { records: old.records.update(i, m), ..old }
            }
    }
}

/// The store left by deleting the record with id `id`.
pub open spec fn record_deleted(old: DbView, id: i32) -> DbView {
    DbView { records: old.records.filter(|m: expense_record::Model| m.id != id), ..old }
}

/// The records that pass `filter`, most recent first.
pub fn get_records(db: &Database, filter: Option<RecordFilter>) -> (r: Vec<expense_record::Model>)
    requires
        db.wf(),
    ensures
        r@ == records_matching(db@, filter),
{
    let ghost pred = matcher(filter);
    let mut out: Vec<expense_record::Model> = Vec::new();
    let mut i: usize = 0;
    while i < db.records.len()
        invariant
            i <= db@.records.len(),
            db@.records == db.records@,
            pred == matcher(filter),
            out@ == db.records@.subrange(0, i as int).filter(pred),
        decreases db.records@.len() - i,
    {
        let m = &db.records[i];
        let keep = match &filter {
            None => true,
            Some(f) => {
                let type_ok = match &f.record_type {
                    Some(t) => m.record_type == *t,
                    None => true,
                };
                let key_ok = match &f.category_id {
                    Some(k) => m.category_id == *k,
                    None => true,
                };
                let start_ok = match f.start_date {
                    Some(s) => s <= m.created_at,
                    None => true,
                };
                let end_ok = match f.end_date {
                    Some(e) => m.created_at <= e,
                    None => true,
                };
                type_ok && key_ok && start_ok && end_ok
            },
        };
        assert(keep == pred(db.records@[i as int]));
        if keep {
            out.push(m.duplicate());
        }
        proof {
            reveal(Seq::filter);
            assert(db.records@.subrange(0, i + 1).last() == db.records@[i as int]);
            assert(db.records@.subrange(0, i + 1).drop_last() =~= db.records@.subrange(0, i as int));
        }
        i += 1;
    }
    proof {
        assert(db.records@.subrange(0, i as int) =~= db.records@);
    }
    out
}

/// The record with surrogate id `id`, or `None`.
pub fn get_record_by_id(db: &Database, id: i32) -> (r: Option<expense_record::Model>)
    requires
        db.wf(),
    ensures
        match r {
            Some(m) => exists|i: int| 0 <= i < db@.records.len() && db@.records[i] == m && m.id == id,
            None => !db@.has_record(id as int),
        },
{
    match find_record(&db.records, id) {
        Some(i) => {
            let m = db.records[i].duplicate();
            assert(db@.records[i as int] == m);
            Some(m)
        },
        None => None,
    }
}

/// Adds a record stamped with time `now`. Fails, the store unchanged, with
/// `MissingCategory` when no category has its key, and with `IdsExhausted`
/// when no surrogate id is left.
pub fn create_record(db: &mut Database, record_data: ExpenseRecordData, now: i64) -> (r: Result<expense_record::Model, DbErr>)
    requires
        old(db).wf(),
    ensures
        final(db).wf(),
        create_record_post(old(db)@, final(db)@, record_data, now, r),
{
    let ghost old_v = db@;
    let k = find_category(&db.categories, &record_data.category_id);
    if k.is_none() {
        return Err(DbErr::MissingCategory);
    }
    if db.next_record_id == i32::MAX {
        return Err(DbErr::IdsExhausted);
    }
    let mut p: usize = 0;
    while p < db.records.len() && db.records[p].created_at >= now
        invariant
            p <= db@.records.len(),
            db@ == old_v,
            forall|i: int| 0 <= i < p ==> #[trigger] db@.records[i].created_at >= now,
        decreases db@.records.len() - p,
    {
        p += 1;
    }
    let m = expense_record::Model {
        id: db.next_record_id,
        record_type: record_data.record_type,
        category_id: record_data.category_id,
        amount: record_data.amount,
        note: record_data.note,
        created_at: now,
        updated_at: now,
    };
    let r = m.duplicate();
    db.records.insert(p, m);
    db.next_record_id = db.next_record_id + 1;
    proof {
        let v = db@;
        let old_r = old_v.records;
        assert forall|i: int| p <= i < old_r.len() implies #[trigger] old_r[i].created_at < now by {
            if p < old_r.len() {
                assert(old_r[p as int].created_at < now);
            }
        }
        assert(v.records.len() == old_r.len() + 1);
        assert forall|i: int| 0 <= i < v.records.len() implies
            #[trigger] v.records[i] == (if i < p { old_r[i] } else if i == p { r } else { old_r[i - 1] }) by {}
        let kk = k.unwrap() as int;
        assert forall|i: int| 0 <= i < v.records.len() implies v.has_key(#[trigger] v.records[i].category_id@) by {
            assert(v.categories == old_v.categories);
            if i == p {
                assert(v.categories[kk].category_id@ == r.category_id@);
            } else {
                let oi = if i < p { i } else { i - 1 };
                assert(v.records[i] == old_r[oi]);
                assert(old_v.has_key(old_r[oi].category_id@));
                let k2 = choose|k2: int| 0 <= k2 < old_v.categories.len() && #[trigger] old_v.categories[k2].category_id@ == old_r[oi].category_id@;
                assert(v.categories[k2].category_id@ == v.records[i].category_id@);
            }
        }
        assert forall|i: int, j: int| 0 <= i < v.records.len() && 0 <= j < v.records.len() && i != j
            implies #[trigger] v.records[i].id != #[trigger] v.records[j].id by {
            if i != p && j != p {
                let oi = if i < p { i } else { i - 1 };
                let oj = if j < p { j } else { j - 1 };
                assert(old_r[oi].id != old_r[oj].id);
            } else if i == p {
                let oj = if j < p { j } else { j - 1 };
                assert(old_r[oj].id < old_v.next_record_id);
            } else {
                let oi = if i < p { i } else { i - 1 };
                assert(old_r[oi].id < old_v.next_record_id);
            }
        }
        assert forall|i: int, j: int| 0 <= i < j < v.records.len()
            implies #[trigger] v.records[i].created_at >= #[trigger] v.records[j].created_at by {
            if i != p && j != p {
                let oi = if i < p { i } else { i - 1 };
                let oj = if j < p { j } else { j - 1 };
                assert(old_r[oi].created_at >= old_r[oj].created_at);
            }
        }
        assert(v =~= DbView {
            records: old_r.insert(p as int, created_record(old_v.next_record_id, record_data, now)),
            next_record_id: old_v.next_record_id + 1,
            ..old_v
        });
    }
    Ok(r)
}

/// Overwrites the kind, category, amount and note of the record with id `id`
/// and stamps it with time `now`. Fails, the store unchanged, with `RecordNotFound`
/// when no record has that id, else with `MissingCategory` when no category
/// has the new key.
pub fn update_record(db: &mut Database, id: i32, record_data: ExpenseRecordData, now: i64) -> (r: Result<expense_record::Model, DbErr>)
    requires
        old(db).wf(),
    ensures
        final(db).wf(),
        update_record_post(old(db)@, final(db)@, id, record_data, now, r),
{
    let ghost old_v = db@;
    let i = match find_record(&db.records, id) {
        Some(i) => i,
        None => {
            return Err(DbErr::RecordNotFound);
        },
    };
    let k = find_category(&db.categories, &record_data.category_id);
    if k.is_none() {
        return Err(DbErr::MissingCategory);
    }
    let m = expense_record::Model {
        id: db.records[i].id,
        record_type: record_data.record_type,
        category_id: record_data.category_id,
        amount: record_data.amount,
        note: record_data.note,
        created_at: db.records[i].created_at,
        updated_at: now,
    };
    let r = m.duplicate();
    db.records.set(i, m);
    proof {
        let v = db@;
        let kk = k.unwrap() as int;
        assert(v.records[i as int] == updated_record(old_v.records[i as int], record_data, now));
        assert forall|j: int| 0 <= j < v.records.len() implies v.has_key(#[trigger] v.records[j].category_id@) by {
            if j == i {
                assert(v.categories[kk].category_id@ == r.category_id@);
            } else {
                assert(old_v.has_key(old_v.records[j].category_id@));
            }
        }
        assert forall|a: int, b: int| 0 <= a < v.records.len() && 0 <= b < v.records.len() && a != b
            implies #[trigger] v.records[a].id != #[trigger] v.records[b].id by {
            assert(old_v.records[a].id != old_v.records[b].id);
        }
        assert forall|a: int, b: int| 0 <= a < b < v.records.len()
            implies #[trigger] v.records[a].created_at >= #[trigger] v.records[b].created_at by {
            assert(old_v.records[a].created_at >= old_v.records[b].created_at);
        }
        assert(v =~= DbView { records: old_v.records.update(i as int, v.records[i as int]), ..old_v });
    }
    Ok(r)
}

/// Removes the record with id `id`. Removing an id that no record has changes
/// nothing.
pub fn delete_record(db: &mut Database, id: i32)
    requires
        old(db).wf(),
    ensures
        final(db).wf(),
        final(db)@ == record_deleted(old(db)@, id),
{
    let ghost old_v = db@;
    let ghost pred = |m: expense_record::Model| m.id != id;
    let mut recs: Vec<expense_record::Model> = Vec::new();
    let mut i: usize = 0;
    while i < db.records.len()
        invariant
            i <= db.records@.len(),
            db@ == old_v,
            pred == (|m: expense_record::Model| m.id != id),
            recs@ == db.records@.subrange(0, i as int).filter(pred),
        decreases db.records@.len() - i,
    {
        let keep = db.records[i].id != id;
        assert(keep == pred(db.records@[i as int]));
        if keep {
            recs.push(db.records[i].duplicate());
        }
        proof {
            reveal(Seq::filter);
            assert(db.records@.subrange(0, i + 1).last() == db.records@[i as int]);
            assert(db.records@.subrange(0, i + 1).drop_last() =~= db.records@.subrange(0, i as int));
        }
        i += 1;
    }
    proof {
        assert(db.records@.subrange(0, i as int) =~= db.records@);
    }
    db.records = recs;
    proof {
        let v = db@;
        let nr = old_v.records.filter(pred);
        let ri = lemma_filter_positions(old_v.records, pred);
        assert(v.records == nr);
        assert forall|a: int| 0 <= a < nr.len() implies 1 <= #[trigger] nr[a].id < v.next_record_id by {
            assert(nr[a] == old_v.records[ri[a]]);
        }
        assert forall|a: int, b: int| 0 <= a < nr.len() && 0 <= b < nr.len() && a != b
            implies #[trigger] nr[a].id != #[trigger] nr[b].id by {
            if a < b { assert(ri[a] < ri[b]); } else { assert(ri[b] < ri[a]); }
            assert(nr[a] == old_v.records[ri[a]]);
            assert(nr[b] == old_v.records[ri[b]]);
        }
        assert forall|a: int, b: int| 0 <= a < b < nr.len()
            implies #[trigger] nr[a].created_at >= #[trigger] nr[b].created_at by {
            assert(ri[a] < ri[b]);
            assert(nr[a] == old_v.records[ri[a]]);
            assert(nr[b] == old_v.records[ri[b]]);
        }
        assert forall|a: int| 0 <= a < nr.len() implies v.has_key(#[trigger] nr[a].category_id@) by {
            assert(nr[a] == old_v.records[ri[a]]);
            assert(old_v.has_key(old_v.records[ri[a]].category_id@));
            assert(v.categories == old_v.categories);
            let k = choose|k: int| 0 <= k < old_v.categories.len() && #[trigger] old_v.categories[k].category_id@ == nr[a].category_id@;
            assert(v.categories[k].category_id@ == nr[a].category_id@);
        }
        assert(v =~= record_deleted(old_v, id));
    }
}

/// Exact total, in ten-thousandths of a unit, of the amounts of the records of
/// kind `record_type` created within the inclusive bounds; any of the three
/// left `None` imposes nothing. Zero when no record counts.
pub fn get_statistics(db: &Database, record_type: Option<String>, start_date: Option<i64>, end_date: Option<i64>) -> (r: i128)
    requires
        db.wf(),
    ensures
        r == sum_amounts(counted_records(db@, record_type, start_date, end_date)),
{
    let ghost pred = |m: expense_record::Model| counted(record_type, start_date, end_date, m);
    let mut total: i128 = 0;
    let mut i: usize = 0;
    while i < db.records.len()
        invariant
            i <= db@.records.len(),
            db@.records == db.records@,
            pred == (|m: expense_record::Model| counted(record_type, start_date, end_date, m)),
            total == sum_amounts(db.records@.subrange(0, i as int).filter(pred)),
            -(i as int) * 0x8000_0000_0000_0000 <= total <= (i as int) * 0x8000_0000_0000_0000,
        decreases db.records@.len() - i,
    {
        let m = &db.records[i];
        let type_ok = match &record_type {
            Some(t) => m.record_type == *t,
            None => true,
        };
        let start_ok = match start_date {
            Some(s) => s <= m.created_at,
            None => true,
        };
        let end_ok = match end_date {
            Some(e) => m.created_at <= e,
            None => true,
        };
        let keep = type_ok && start_ok && end_ok;
        assert(keep == pred(db.records@[i as int]));
        proof {
            reveal(Seq::filter);
            let s1 = db.records@.subrange(0, i + 1);
            assert(s1.last() == db.records@[i as int]);
            assert(s1.drop_last() =~= db.records@.subrange(0, i as int));
            assert((i as int) < 0x1_0000_0000_0000_0000);
        }
        let ghost f0 = db.records@.subrange(0, i as int).filter(pred);
        if keep {
            total = total + m.amount.minor as i128;
            proof {
                let f1 = db.records@.subrange(0, i + 1).filter(pred);
                assert(f1 == f0.push(db.records@[i as int]));
                assert(f1.drop_last() =~= f0);
            }
        }
        i += 1;
    }
    proof {
        assert(db.records@.subrange(0, i as int) =~= db.records@);
    }
    total
}

} // verus!
