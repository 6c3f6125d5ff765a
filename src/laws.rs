use vstd::prelude::*;
use crate::amount::Amount;
use crate::database::category_service::{
    category_deleted, create_category_post, seed_post, unrelated_record, update_category_post, CategoryData,
};
use crate::database::defaults::DEFAULT_CATEGORY_COUNT;
use crate::database::record_service::{
    counted_records, in_range, matcher, records_matching, sum_amounts, RecordFilter,
};
use crate::database::{lemma_filter_positions, DbView};
use crate::entities::{category, expense_record};
use crate::error::DbErr;
use crate::migration::{migrated, Schema, LATEST_VERSION};

verus! {

/// After a category is created, the row stored under its key is exactly the
/// one that was returned, so a lookup by that key yields it.
pub proof fn lemma_created_category_is_found(old: DbView, new: DbView, data: CategoryData, now: i64, m: category::Model)
    requires
        old.wf(),
        new.wf(),
        create_category_post(old, new, data, now, Ok(m)),
    ensures
        m.category_id@ == data.category_id@,
        new.has_key(m.category_id@),
        forall|i: int| 0 <= i < new.categories.len() && #[trigger] new.categories[i].category_id@ == m.category_id@
            ==> new.categories[i] == m,
{
    let last = new.categories.len() - 1;
    assert(new.categories[last] == m);
    assert forall|i: int| 0 <= i < new.categories.len() && #[trigger] new.categories[i].category_id@ == m.category_id@
        implies new.categories[i] == m by {
        if i != last {
            assert(new.categories[i].category_id@ != new.categories[last].category_id@);
        }
    }
}

/// After a category is updated, the row stored under its key is exactly the
/// one that was returned, so a lookup by that key yields it.
pub proof fn lemma_updated_category_is_found(
    old: DbView,
    new: DbView,
    key: Seq<char>,
    data: CategoryData,
    now: i64,
    m: category::Model,
)
    requires
        old.wf(),
        new.wf(),
        update_category_post(old, new, key, data, now, Ok(m)),
    ensures
        m.category_id@ == key,
        new.has_key(key),
        forall|i: int| 0 <= i < new.categories.len() && #[trigger] new.categories[i].category_id@ == key
            ==> new.categories[i] == m,
{
    let p = choose|i: int|
        0 <= i < old.categories.len() && #[trigger] old.categories[i].category_id@ == key && {
            let m2 = crate::database::category_service::updated_category(old.categories[i], data, now);
            &&& Ok::<category::Model, DbErr>(m) == Ok::<category::Model, DbErr>(m2)
            &&& new == DbView { categories: old.categories.update(i, m2), ..old }
        };
    assert(new.categories[p] == m);
    assert forall|i: int| 0 <= i < new.categories.len() && #[trigger] new.categories[i].category_id@ == key
        implies new.categories[i] == m by {
        if i != p {
            assert(new.categories[i].category_id@ != new.categories[p].category_id@);
        }
    }
}

/// Creating a category under a key that is taken fails with `Conflict` and
/// adds no row.
pub proof fn lemma_duplicate_key_conflicts(
    old: DbView,
    new: DbView,
    data: CategoryData,
    now: i64,
    r: Result<category::Model, DbErr>,
)
    requires
        create_category_post(old, new, data, now, r),
        old.has_key(data.category_id@),
    ensures
        r == Err::<category::Model, DbErr>(DbErr::Conflict),
        new == old,
{
}

/// Once a category is deleted, no record refers to its key, and no listing
/// returns one that does.
pub proof fn lemma_delete_cascades(old: DbView, key: Seq<char>, filter: Option<RecordFilter>)
    ensures
        forall|i: int| 0 <= i < category_deleted(old, key).records.len()
            ==> (#[trigger] category_deleted(old, key).records[i]).category_id@ != key,
        forall|i: int| 0 <= i < records_matching(category_deleted(old, key), filter).len()
            ==> (#[trigger] records_matching(category_deleted(old, key), filter)[i]).category_id@ != key,
{
    let pred = unrelated_record(key);
    let rest = old.records.filter(pred);
    assert forall|i: int| 0 <= i < rest.len() implies (#[trigger] rest[i]).category_id@ != key by {
        old.records.lemma_filter_pred(pred, i);
    }
    let fpred = matcher(filter);
    let listed = rest.filter(fpred);
    assert(category_deleted(old, key).records == rest);
    assert(records_matching(category_deleted(old, key), filter) == listed);
    assert forall|i: int| 0 <= i < listed.len() implies (#[trigger] listed[i]).category_id@ != key by {
        rest.lemma_filter_contains_rev(fpred, listed[i]);
        assert(listed.contains(listed[i]));
    }
}

/// A sequence of records that all carry amount `a` sums to its length times
/// `a`, and an empty one to zero.
pub proof fn lemma_sum_of_equal_amounts(s: Seq<expense_record::Model>, a: Amount)
    requires
        forall|i: int| 0 <= i < s.len() ==> (#[trigger] s[i]).amount == a,
    ensures
        sum_amounts(s) == s.len() * a.minor,
    decreases s.len(),
{
    if s.len() > 0 {
        lemma_sum_of_equal_amounts(s.drop_last(), a);
        assert(s.last() == s[s.len() - 1]);
        assert((s.len() - 1) * a.minor + a.minor == s.len() * a.minor) by (nonlinear_arith);
    }
}

/// A total over records of one amount `a` is their number times `a`, exactly;
/// in particular a total over no matching record is zero.
pub proof fn lemma_total_of_equal_amounts(
    v: DbView,
    record_type: Option<String>,
    start: Option<i64>,
    end: Option<i64>,
    a: Amount,
)
    requires
        forall|i: int| 0 <= i < counted_records(v, record_type, start, end).len()
            ==> (#[trigger] counted_records(v, record_type, start, end)[i]).amount == a,
    ensures
        sum_amounts(counted_records(v, record_type, start, end))
            == counted_records(v, record_type, start, end).len() * a.minor,
{
    lemma_sum_of_equal_amounts(counted_records(v, record_type, start, end), a);
}

/// Seeding twice in a row: the second call leaves the number of categories
/// as the first left it.
pub proof fn lemma_seed_twice(v0: DbView, v1: DbView, v2: DbView, now1: i64, now2: i64, r1: Result<(), DbErr>, r2: Result<(), DbErr>)
    requires
        seed_post(v0, v1, now1, r1),
        seed_post(v1, v2, now2, r2),
    ensures
        v2.categories.len() == v1.categories.len(),
        v2 == v1,
{
    if v0.categories.len() == 0 && v0.next_category_id + DEFAULT_CATEGORY_COUNT <= i32::MAX {
        assert(v1.categories.len() > 0);
    }
}

/// A listing filtered by time bounds alone keeps exactly the records created
/// within them, whatever their kind or category.
pub proof fn lemma_time_window_listing(v: DbView, start: Option<i64>, end: Option<i64>)
    ensures
        ({
            let f = Some(RecordFilter { record_type: None, category_id: None, start_date: start, end_date: end });
            forall|m: expense_record::Model| #[trigger] records_matching(v, f).contains(m)
                <==> (v.records.contains(m) && in_range(m.created_at, start, end))
        }),
{
    let f = Some(RecordFilter { record_type: None, category_id: None, start_date: start, end_date: end });
    let pred = matcher(f);
    assert forall|m: expense_record::Model| #[trigger] records_matching(v, f).contains(m)
        <==> (v.records.contains(m) && in_range(m.created_at, start, end)) by {
        if records_matching(v, f).contains(m) {
            v.records.lemma_filter_contains_rev(pred, m);
        }
        if v.records.contains(m) && in_range(m.created_at, start, end) {
            let i = choose|i: int| 0 <= i < v.records.len() && v.records[i] == m;
            v.records.lemma_filter_contains(pred, i);
        }
    }
}

/// Every listing runs from the most recent record to the oldest.
pub proof fn lemma_listing_most_recent_first(v: DbView, filter: Option<RecordFilter>)
    requires
        v.wf(),
    ensures
        forall|i: int, j: int| 0 <= i < j < records_matching(v, filter).len()
            ==> (#[trigger] records_matching(v, filter)[i]).created_at >= (#[trigger] records_matching(v, filter)[j]).created_at,
{
    let out = records_matching(v, filter);
    let idx = lemma_filter_positions(v.records, matcher(filter));
    assert forall|i: int, j: int| 0 <= i < j < out.len() implies (#[trigger] out[i]).created_at >= (#[trigger] out[j]).created_at by {
        assert(idx[i] < idx[j]);
        assert(out[i] == v.records[idx[i]]);
        assert(out[j] == v.records[idx[j]]);
    }
}

/// Running the migrations on a schema that they already brought up to date
/// changes nothing.
pub proof fn lemma_migrations_idempotent(s: Schema)
    ensures
        migrated(migrated(s)) == migrated(s),
{
}

/// Running the migrations on a consistent schema no newer than the latest
/// leaves it current.
pub proof fn lemma_migrations_reach_current(s: Schema)
    requires
        s.consistent(),
        s.version <= LATEST_VERSION,
    ensures
        migrated(s).is_current(),
{
}

} // verus!
