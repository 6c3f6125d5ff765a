use vstd::prelude::*;
use crate::database::{find_category, lemma_filter_positions, text_matches, Database, DbView};
use crate::entities::category;
use crate::database::defaults::{data_row, default_catalog, default_categories, lemma_catalog_keys_distinct, DEFAULT_CATEGORY_COUNT};
use crate::error::DbErr;

verus! {

/// The caller-supplied fields of a category.
#[derive(Debug)]
pub struct CategoryData {
    pub category_id: String,
    pub name: String,
    pub icon: String,
    pub color: String,
    pub category_type: String,
}

/// The row that `create_category` stores for `data` at time `now`.
pub open spec fn created_category(id: int, data: CategoryData, now: i64) -> category::Model {
    category::Model {
        id: id as i32,
        category_id: data.category_id,
        name: data.name,
        icon: data.icon,
        color: data.color,
        category_type: data.category_type,
        created_at: now,
        updated_at: now,
    }
}

/// `old` with its name, icon, color and kind taken from `data` and its update
/// time set to `now`; its ids and creation time stay.
pub open spec fn updated_category(old: category::Model, data: CategoryData, now: i64) -> category::Model {
    category::Model {
        id: old.id,
        category_id: old.category_id,
        name: data.name,
        icon: data.icon,
        color: data.color,
        category_type: data.category_type,
        created_at: old.created_at,
        updated_at: now,
    }
}

/// The categories of `v` whose kind matches `category_type`, in store order.
pub open spec fn categories_of_type(v: DbView, category_type: Option<String>) -> Seq<category::Model> {
    v.categories.filter(|m: category::Model| text_matches(category_type, m.category_type))
}

/// What `create_category` does to a store and returns.
pub open spec fn create_category_post(
    old: DbView,
    new: DbView,
    data: CategoryData,
    now: i64,
    r: Result<category::Model, DbErr>,
) -> bool {
    if old.has_key(data.category_id@) {
        r == Err::<category::Model, DbErr>(DbErr::Conflict) && new == old
    } else if old.next_category_id == i32::MAX {
        r == Err::<category::Model, DbErr>(DbErr::IdsExhausted) && new == old
    } else {
        let m = created_category(old.next_category_id, data, now);
        &&& r == Ok::<category::Model, DbErr>(m)
        &&& new == DbView {
            categories: old.categories.push(m),
            next_category_id: old.next_category_id + 1,
            ..old
        }
    }
}

/// All categories, or those of kind `category_type` when it is given, in
/// store order.
pub fn get_categories(db: &Database, category_type: Option<String>) -> (r: Vec<category::Model>)
    requires
        db.wf(),
    ensures
        r@ == categories_of_type(db@, category_type),
{
    let ghost pred = |m: category::Model| text_matches(category_type, m.category_type);
    let mut out: Vec<category::Model> = Vec::new();
    let mut i: usize = 0;
    while i < db.categories.len()
        invariant
            i <= db@.categories.len(),
            db@.categories == db.categories@,
            pred == (|m: category::Model| text_matches(category_type, m.category_type)),
            out@ == db.categories@.subrange(0, i as int).filter(pred),
        decreases db.categories@.len() - i,
    {
        let m = &db.categories[i];
        let keep = match &category_type {
            Some(t) => m.category_type == *t,
            None => true,
        };
        assert(keep == pred(db.categories@[i as int]));
        if keep {
            out.push(m.duplicate());
        }
        proof {
            reveal(Seq::filter);
            assert(db.categories@.subrange(0, i + 1).last() == db.categories@[i as int]);
            assert(db.categories@.subrange(0, i + 1).drop_last() =~= db.categories@.subrange(0, i as int));
        }
        i += 1;
    }
    proof {
        assert(db.categories@.subrange(0, i as int) =~= db.categories@);
    }
    out
}

/// The category whose external key is `category_id`, or `None`.
pub fn get_category_by_id(db: &Database, category_id: &str) -> (r: Option<category::Model>)
    requires
        db.wf(),
    ensures
        match r {
            Some(m) => exists|i: int|
                0 <= i < db@.categories.len() && db@.categories[i] == m && m.category_id@ == category_id@,
            None => !db@.has_key(category_id@),
        },
{
    let key = String::from_str(category_id);
    match find_category(&db.categories, &key) {
        Some(i) => {
            let m = db.categories[i].duplicate();
            assert(db@.categories[i as int] == m);
            Some(m)
        },
        None => None,
    }
}

/// Adds a category stamped with time `now`. Fails with `Conflict` when its key
/// is taken, and with `IdsExhausted` when no surrogate id is left; the store is
/// then unchanged.
pub fn create_category(db: &mut Database, category_data: CategoryData, now: i64) -> (r: Result<category::Model, DbErr>)
    requires
        old(db).wf(),
    ensures
        final(db).wf(),
        create_category_post(old(db)@, final(db)@, category_data, now, r),
{
    match find_category(&db.categories, &category_data.category_id) {
        Some(_) => {
            return Err(DbErr::Conflict);
        },
        None => {},
    }
    if db.next_category_id == i32::MAX {
        return Err(DbErr::IdsExhausted);
    }
    let ghost old_v = db@;
    let m = category::Model {
        id: db.next_category_id,
        category_id: category_data.category_id,
        name: category_data.name,
        icon: category_data.icon,
        color: category_data.color,
        category_type: category_data.category_type,
        created_at: now,
        updated_at: now,
    };
    let r = m.duplicate();
    db.categories.push(m);
    db.next_category_id = db.next_category_id + 1;
    proof {
        let v = db@;
        assert forall|i: int| 0 <= i < v.records.len() implies v.has_key(#[trigger] v.records[i].category_id@) by {
            let k = choose|k: int| 0 <= k < old_v.categories.len() && #[trigger] old_v.categories[k].category_id@ == old_v.records[i].category_id@;
            assert(v.categories[k] == old_v.categories[k]);
        }
        assert(v =~= DbView {
            categories: old_v.categories.push(created_category(old_v.next_category_id, category_data, now)),
            next_category_id: old_v.next_category_id + 1,
            ..old_v
        });
    }
    Ok(r)
}

/// What `update_category` does to a store and returns.
pub open spec fn update_category_post(
    old: DbView,
    new: DbView,
    key: Seq<char>,
    data: CategoryData,
    now: i64,
    r: Result<category::Model, DbErr>,
) -> bool {
    if !old.has_key(key) {
        r == Err::<category::Model, DbErr>(DbErr::CategoryNotFound) && new == old
    } else {
        exists|i: int|
            0 <= i < old.categories.len() && #[trigger] old.categories[i].category_id@ == key && {
                let m = updated_category(old.categories[i], data, now);
                &&& r == Ok::<category::Model, DbErr>(m)
                &&& new == DbView { categories: old.categories.update(i, m), ..old }
            }
    }
}

/// A category whose key is not `key`.
pub open spec fn other_category(key: Seq<char>) -> spec_fn(category::Model) -> bool {
    |m: category::Model| m.category_id@ != key
}

/// A record that does not refer to the category key `key`.
pub open spec fn unrelated_record(key: Seq<char>) -> spec_fn(crate::entities::expense_record::Model) -> bool {
    |m: crate::entities::expense_record::Model| m.category_id@ != key
}

/// The store left by deleting the category with key `key`: that category and
/// every record that refers to it are gone.
pub open spec fn category_deleted(old: DbView, key: Seq<char>) -> DbView {
    DbView {
        categories: old.categories.filter(other_category(key)),
        records: old.records.filter(unrelated_record(key)),
        ..old
    }
}

/// Overwrites the name, icon, color and kind of the category with key
/// `category_id` and stamps it with time `now`. Fails with `CategoryNotFound`, the
/// store unchanged, when no category has that key. The key in
/// `category_data` is ignored: a key never changes.
pub fn update_category(db: &mut Database, category_id: &str, category_data: CategoryData, now: i64) -> (r: Result<category::Model, DbErr>)
    requires
        old(db).wf(),
    ensures
        final(db).wf(),
        update_category_post(old(db)@, final(db)@, category_id@, category_data, now, r),
{
    let key = String::from_str(category_id);
    let i = match find_category(&db.categories, &key) {
        Some(i) => i,
        None => {
            return Err(DbErr::CategoryNotFound);
        },
    };
    let ghost old_v = db@;
    let m = category::Model {
        id: db.categories[i].id,
        category_id: db.categories[i].category_id.clone(),
        name: category_data.name,
        icon: category_data.icon,
        color: category_data.color,
        category_type: category_data.category_type,
        created_at: db.categories[i].created_at,
        updated_at: now,
    };
    let r = m.duplicate();
    db.categories.set(i, m);
    proof {
        let v = db@;
        assert(v.categories[i as int] == updated_category(old_v.categories[i as int], category_data, now));
        assert forall|j: int| 0 <= j < v.records.len() implies v.has_key(#[trigger] v.records[j].category_id@) by {
            let k = choose|k: int| 0 <= k < old_v.categories.len() && #[trigger] old_v.categories[k].category_id@ == old_v.records[j].category_id@;
            assert(v.categories[k].category_id@ == old_v.categories[k].category_id@);
        }
        assert(v =~= DbView { categories: old_v.categories.update(i as int, v.categories[i as int]), ..old_v });
    }
    Ok(r)
}

/// Removes the category with key `category_id` together with every record
/// that refers to it. Removing a key that no category has changes nothing.
pub fn delete_category(db: &mut Database, category_id: &str)
    requires
        old(db).wf(),
    ensures
        final(db).wf(),
        final(db)@ == category_deleted(old(db)@, category_id@),
{
    let key = String::from_str(category_id);
    let ghost old_v = db@;
    let ghost cpred = other_category(key@);
    let ghost rpred = unrelated_record(key@);
    let mut cats: Vec<category::Model> = Vec::new();
    let mut i: usize = 0;
    while i < db.categories.len()
        invariant
            i <= db.categories@.len(),
            db@ == old_v,
            cpred == other_category(key@),
            cats@ == db.categories@.subrange(0, i as int).filter(cpred),
        decreases db.categories@.len() - i,
    {
        let keep = db.categories[i].category_id != key;
        assert(keep == cpred(db.categories@[i as int]));
        if keep {
            cats.push(db.categories[i].duplicate());
        }
        proof {
            reveal(Seq::filter);
            assert(db.categories@.subrange(0, i + 1).last() == db.categories@[i as int]);
            assert(db.categories@.subrange(0, i + 1).drop_last() =~= db.categories@.subrange(0, i as int));
        }
        i += 1;
    }
    proof {
        assert(db.categories@.subrange(0, i as int) =~= db.categories@);
    }
    let mut recs: Vec<crate::entities::expense_record::Model> = Vec::new();
    let mut i: usize = 0;
    while i < db.records.len()
        invariant
            i <= db.records@.len(),
            db@ == old_v,
            rpred == unrelated_record(key@),
            recs@ == db.records@.subrange(0, i as int).filter(rpred),
        decreases db.records@.len() - i,
    {
        let keep = db.records[i].category_id != key;
        assert(keep == rpred(db.records@[i as int]));
        if keep {
            recs.push(db.records[i].duplicate());
        }
        proof {
            reveal(Seq::filter);
            assert(db.records@.subrange(0, i + 1).last() == db.records@[i as int]);
            assert(db.records@.subrange(0, i + 1).drop_last() =~= db.records@.subrange(0, i as int));
        }
        i += 1;
    }
    proof {
        assert(db.records@.subrange(0, i as int) =~= db.records@);
    }
    db.categories = cats;
    db.records = recs;
    proof {
        let v = db@;
        let nc = old_v.categories.filter(cpred);
        let nr = old_v.records.filter(rpred);
        let ci = lemma_filter_positions(old_v.categories, cpred);
        let ri = lemma_filter_positions(old_v.records, rpred);
        assert(v.categories == nc);
        assert(v.records == nr);
        assert forall|a: int| 0 <= a < nc.len() implies 1 <= #[trigger] nc[a].id < v.next_category_id by {
            assert(nc[a] == old_v.categories[ci[a]]);
        }
        assert forall|a: int, b: int| 0 <= a < b < nc.len() implies #[trigger] nc[a].id < #[trigger] nc[b].id by {
            assert(ci[a] < ci[b]);
            assert(nc[a] == old_v.categories[ci[a]]);
            assert(nc[b] == old_v.categories[ci[b]]);
        }
        assert forall|a: int, b: int| 0 <= a < nc.len() && 0 <= b < nc.len() && a != b
            implies #[trigger] nc[a].category_id@ != #[trigger] nc[b].category_id@ by {
            if a < b { assert(ci[a] < ci[b]); } else { assert(ci[b] < ci[a]); }
            assert(nc[a] == old_v.categories[ci[a]]);
            assert(nc[b] == old_v.categories[ci[b]]);
        }
        assert forall|a: int| 0 <= a < nr.len() implies 1 <= #[trigger] nr[a].id < v.next_record_id by {
            assert(nr[a] == old_v.records[ri[a]]);
        }
        assert forall|a: int, b: int| 0 <= a < nr.len() && 0 <= b < nr.len() && a != b
            implies #[trigger] nr[a].id != #[trigger] nr[b].id by {
            if a < b { assert(ri[a] < ri[b]); } else { assert(ri[b] < ri[a]); }
            assert(nr[a] == old_v.records[ri[a]]);
            assert(nr[b] == old_v.records[ri[b]]);
        }
        assert forall|a: int, b: int| 0 <= a < b < nr.len()
            implies #[trigger] nr[a].created_at >= #[trigger] nr[b].created_at by {
            assert(ri[a] < ri[b]);
            assert(nr[a] == old_v.records[ri[a]]);
            assert(nr[b] == old_v.records[ri[b]]);
        }
        assert forall|a: int| 0 <= a < nr.len() implies v.has_key(#[trigger] nr[a].category_id@) by {
            assert(nr[a] == old_v.records[ri[a]]);
            assert(rpred(nr[a])) by { old_v.records.lemma_filter_pred(rpred, a); }
            let k = choose|k: int| 0 <= k < old_v.categories.len() && #[trigger] old_v.categories[k].category_id@ == old_v.records[ri[a]].category_id@;
            old_v.categories.lemma_filter_contains(cpred, k);
            let c = choose|c: int| 0 <= c < nc.len() && nc[c] == old_v.categories[k];
            assert(v.categories[c].category_id@ == nr[a].category_id@);
        }
        assert(v =~= category_deleted(old_v, category_id@));
    }
}

/// Category `c` is row `i` of the built-in catalog, stored at time `now` by a
/// store whose next id was `first_id`.
pub open spec fn is_seeded_row(c: category::Model, i: int, first_id: int, now: i64) -> bool {
    &&& c.id == first_id + i
    &&& (c.category_id@, c.name@, c.icon@, c.color@, c.category_type@) == default_catalog()[i]
    &&& c.created_at == now
    &&& c.updated_at == now
}

/// What `initialize_default_categories` does to a store and returns.
pub open spec fn seed_post(old: DbView, new: DbView, now: i64, r: Result<(), DbErr>) -> bool {
    if old.categories.len() > 0 {
        r == Ok::<(), DbErr>(()) && new == old
    } else if old.next_category_id + DEFAULT_CATEGORY_COUNT > i32::MAX {
        r == Err::<(), DbErr>(DbErr::IdsExhausted) && new == old
    } else {
        &&& r == Ok::<(), DbErr>(())
        &&& new.categories.len() == DEFAULT_CATEGORY_COUNT
        &&& forall|i: int| 0 <= i < DEFAULT_CATEGORY_COUNT
            ==> is_seeded_row(#[trigger] new.categories[i], i, old.next_category_id, now)
        &&& new.records == old.records
        &&& new.next_category_id == old.next_category_id + DEFAULT_CATEGORY_COUNT
        &&& new.next_record_id == old.next_record_id
    }
}

/// Fills an empty category table with the built-in catalog, stamped with time
/// `now`. A table that holds any category is left as it is, so this can run
/// on every start. Fails with `IdsExhausted`, the store unchanged, when the
/// catalog would use up the surrogate ids.
pub fn initialize_default_categories(db: &mut Database, now: i64) -> (r: Result<(), DbErr>)
    requires
        old(db).wf(),
    ensures
        final(db).wf(),
        seed_post(old(db)@, final(db)@, now, r),
{
    if db.categories.len() > 0 {
        return Ok(());
    }
    if db.next_category_id > i32::MAX - (DEFAULT_CATEGORY_COUNT as i32) {
        return Err(DbErr::IdsExhausted);
    }
    let ghost old_v = db@;
    let catalog = default_categories();
    proof {
        lemma_catalog_keys_distinct();
    }
    let mut k: usize = 0;
    while k < catalog.len()
        invariant
            catalog@.len() == DEFAULT_CATEGORY_COUNT,
            forall|i: int| 0 <= i < catalog@.len() ==> data_row(#[trigger] catalog@[i]) == default_catalog()[i],
            forall|i: int, j: int|
                0 <= i < DEFAULT_CATEGORY_COUNT && 0 <= j < DEFAULT_CATEGORY_COUNT && i != j
                    ==> #[trigger] default_catalog()[i].0 != #[trigger] default_catalog()[j].0,
            k <= catalog@.len(),
            db.wf(),
            old_v.categories.len() == 0,
            old_v.next_category_id + DEFAULT_CATEGORY_COUNT <= i32::MAX,
            db@.categories.len() == k,
            forall|i: int| 0 <= i < k ==> is_seeded_row(#[trigger] db@.categories[i], i, old_v.next_category_id, now),
            db@.records == old_v.records,
            db@.next_category_id == old_v.next_category_id + k,
            db@.next_record_id == old_v.next_record_id,
        decreases catalog@.len() - k,
    {
        let d = &catalog[k];
        let data = CategoryData {
            category_id: d.category_id.clone(),
            name: d.name.clone(),
            icon: d.icon.clone(),
            color: d.color.clone(),
            category_type: d.category_type.clone(),
        };
        let ghost before = db@;
        proof {
            assert(data_row(data) == default_catalog()[k as int]);
            assert forall|i: int| 0 <= i < before.categories.len()
                implies #[trigger] before.categories[i].category_id@ != data.category_id@ by {
                assert(is_seeded_row(before.categories[i], i, old_v.next_category_id, now));
                assert(default_catalog()[i].0 != default_catalog()[k as int].0);
            }
        }
        let res = create_category(db, data, now);
        assert(res.is_ok());
        proof {
            assert forall|i: int| 0 <= i < k + 1 implies is_seeded_row(#[trigger] db@.categories[i], i, old_v.next_category_id, now) by {
                if i < k {
                    assert(db@.categories[i] == before.categories[i]);
                }
            }
        }
        k += 1;
    }
    Ok(())
}

} // verus!
