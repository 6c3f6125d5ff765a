pub mod category_service;
pub mod defaults;
pub mod record_service;

use vstd::prelude::*;
use crate::entities::{category, expense_record};
use crate::error::DbErr;
use crate::migration::{migrated, Migrator, Schema};

verus! {

/// What a store holds, as mathematical values.
pub struct DbView {
    pub categories: Seq<category::Model>,
    pub records: Seq<expense_record::Model>,
    pub next_category_id: int,
    pub next_record_id: int,
}

impl DbView {
    /// Some category has the external key `key`.
    pub open spec fn has_key(self, key: Seq<char>) -> bool {
        exists|i: int| 0 <= i < self.categories.len() && #[trigger] self.categories[i].category_id@ == key
    }

    /// Some record has the surrogate id `id`.
    pub open spec fn has_record(self, id: int) -> bool {
        exists|i: int| 0 <= i < self.records.len() && #[trigger] self.records[i].id == id
    }

    /// The invariant of a store: keys and ids are unique, ids are below the
    /// next id to hand out, categories keep the order of their ids, records run
    /// from the most recent to the oldest, and every record's category exists.
    pub open spec fn wf(self) -> bool {
        &&& 1 <= self.next_category_id <= i32::MAX
        &&& 1 <= self.next_record_id <= i32::MAX
        &&& forall|i: int|
            0 <= i < self.categories.len() ==> 1 <= #[trigger] self.categories[i].id < self.next_category_id
        &&& forall|i: int, j: int|
            0 <= i < j < self.categories.len() ==> #[trigger] self.categories[i].id < #[trigger] self.categories[j].id
        &&& forall|i: int, j: int|
            0 <= i < self.categories.len() && 0 <= j < self.categories.len() && i != j
                ==> #[trigger] self.categories[i].category_id@ != #[trigger] self.categories[j].category_id@
        &&& forall|i: int|
            0 <= i < self.records.len() ==> 1 <= #[trigger] self.records[i].id < self.next_record_id
        &&& forall|i: int, j: int|
            0 <= i < self.records.len() && 0 <= j < self.records.len() && i != j
                ==> #[trigger] self.records[i].id != #[trigger] self.records[j].id
        &&& forall|i: int, j: int|
            0 <= i < j < self.records.len()
                ==> #[trigger] self.records[i].created_at >= #[trigger] self.records[j].created_at
        &&& forall|i: int|
            0 <= i < self.records.len() ==> self.has_key(#[trigger] self.records[i].category_id@)
    }
}

/// An open store: the category table, the record table and the counters
/// from which new surrogate ids are drawn.
pub struct Database {
    categories: Vec<category::Model>,
    records: Vec<expense_record::Model>,
    next_category_id: i32,
    next_record_id: i32,
}

impl View for Database {
    type V = DbView;

    closed spec fn view(&self) -> DbView {
        DbView {
            categories: self.categories@,
            records: self.records@,
            next_category_id: self.next_category_id as int,
            next_record_id: self.next_record_id as int,
        }
    }
}

impl Database {
    pub open spec fn wf(&self) -> bool {
        self@.wf()
    }

    /// An empty store whose first ids will be 1.
    pub fn new() -> (r: Database)
        ensures
            r.wf(),
            r@.categories.len() == 0,
            r@.records.len() == 0,
            r@.next_category_id == 1,
            r@.next_record_id == 1,
    {
        Database { categories: Vec::new(), records: Vec::new(), next_category_id: 1, next_record_id: 1 }
    }

    /// The store made of saved rows and id counters, or `None` when they break
    /// the store's invariant.
    pub fn from_rows(
        categories: Vec<category::Model>,
        records: Vec<expense_record::Model>,
        next_category_id: i32,
        next_record_id: i32,
    ) -> (r: Option<Database>)
        ensures
            r is Some <==> rows_view(categories@, records@, next_category_id, next_record_id).wf(),
            r matches Some(db) ==> db@ == rows_view(categories@, records@, next_category_id, next_record_id),
    {
        let ghost v = rows_view(categories@, records@, next_category_id, next_record_id);
        if next_category_id < 1 || next_record_id < 1 {
            return None;
        }
        let cats_ok = check_categories(&categories, next_category_id);
        if !cats_ok {
            assert(v.categories == categories@);
            return None;
        }
        let recs_ok = check_records(&records, next_record_id);
        if !recs_ok {
            assert(v.records == records@);
            return None;
        }
        if !check_references(&categories, &records) {
            proof {
                let w = rows_view(categories@, records@, 1, 1);
                assert(!(forall|i: int| 0 <= i < records@.len() ==> v.has_key(#[trigger] records@[i].category_id@))) by {
                    assert forall|key: Seq<char>| v.has_key(key) implies w.has_key(key) by {
                        let k = choose|k: int| 0 <= k < v.categories.len() && #[trigger] v.categories[k].category_id@ == key;
                        assert(w.categories[k].category_id@ == key);
                    }
                }
            }
            return None;
        }
        proof {
            let w = rows_view(categories@, records@, 1, 1);
            assert forall|key: Seq<char>| w.has_key(key) implies v.has_key(key) by {
                let k = choose|k: int| 0 <= k < w.categories.len() && #[trigger] w.categories[k].category_id@ == key;
                assert(v.categories[k].category_id@ == key);
            }
        }
        Some(Database { categories, records, next_category_id, next_record_id })
    }

    /// The category rows, in store order.
    pub fn categories(&self) -> (r: &Vec<category::Model>)
        ensures
            r@ == self@.categories,
    {
        &self.categories
    }

    /// The record rows, most recent first.
    pub fn records(&self) -> (r: &Vec<expense_record::Model>)
        ensures
            r@ == self@.records,
    {
        &self.records
    }

    /// The id that the next category will get.
    pub fn next_category_id(&self) -> (r: i32)
        ensures
            r == self@.next_category_id,
    {
        self.next_category_id
    }

    /// The id that the next record will get.
    pub fn next_record_id(&self) -> (r: i32)
        ensures
            r == self@.next_record_id,
    {
        self.next_record_id
    }

    /// Number of categories in the store.
    pub fn category_count(&self) -> (r: usize)
        ensures
            r == self@.categories.len(),
    {
        self.categories.len()
    }

    /// Number of records in the store.
    pub fn record_count(&self) -> (r: usize)
        ensures
            r == self@.records.len(),
    {
        self.records.len()
    }
}

/// Positions in `s` of the items that `s.filter(pred)` keeps: a strictly
/// increasing sequence of indices, one for each kept item.
pub proof fn lemma_filter_positions<A>(s: Seq<A>, pred: spec_fn(A) -> bool) -> (idx: Seq<int>)
    ensures
        idx.len() == s.filter(pred).len(),
        forall|j: int| 0 <= j < idx.len() ==> 0 <= #[trigger] idx[j] < s.len() && s.filter(pred)[j] == s[idx[j]],
        forall|j1: int, j2: int| 0 <= j1 < j2 < idx.len() ==> #[trigger] idx[j1] < #[trigger] idx[j2],
    decreases s.len(),
{
    reveal(Seq::filter);
    if s.len() == 0 {
        Seq::empty()
    } else {
        let prev = lemma_filter_positions(s.drop_last(), pred);
        if pred(s.last()) {
            prev.push(s.len() - 1)
        } else {
            prev
        }
    }
}

/// Brings `schema` up to date with the migrations, then opens the store on
/// the rows `stored` that were saved under it, keeping every row and both id
/// counters. Fails with `StoreUnavailable` when the migrated schema is not
/// current (a version marker that claims a table which is missing), so that
/// no operation runs against a store that did not initialise.
pub fn establish_connection(schema: &mut Schema, stored: Database) -> (r: Result<Database, DbErr>)
    requires
        stored.wf(),
    ensures
        *final(schema) == migrated(*old(schema)),
        final(schema).is_current() ==> (r matches Ok(db) && db.wf() && db@ == stored@),
        !final(schema).is_current() ==> r == Err::<Database, DbErr>(DbErr::StoreUnavailable),
{
    Migrator::up(schema);
    if schema.version == crate::migration::LATEST_VERSION && schema.categories_table && schema.records_table {
        Ok(stored)
    } else {
        Err(DbErr::StoreUnavailable)
    }
}

/// The store that the given rows and counters make up.
pub open spec fn rows_view(
    categories: Seq<category::Model>,
    records: Seq<expense_record::Model>,
    next_category_id: i32,
    next_record_id: i32,
) -> DbView {
    DbView { categories, records, next_category_id: next_category_id as int, next_record_id: next_record_id as int }
}

/// Ids within bounds, ascending, and keys unique: the category part of the
/// store's invariant.
fn check_categories(cats: &Vec<category::Model>, next: i32) -> (r: bool)
    ensures
        r == ((forall|i: int| 0 <= i < cats@.len() ==> 1 <= #[trigger] cats@[i].id < next)
            && (forall|i: int, j: int| 0 <= i < j < cats@.len() ==> #[trigger] cats@[i].id < #[trigger] cats@[j].id)
            && (forall|i: int, j: int|
                0 <= i < cats@.len() && 0 <= j < cats@.len() && i != j
                    ==> #[trigger] cats@[i].category_id@ != #[trigger] cats@[j].category_id@)),
{
    let n = cats.len();
    let mut i: usize = 0;
    while i < n
        invariant
            n == cats@.len(),
            i <= n,
            forall|a: int| 0 <= a < i ==> 1 <= #[trigger] cats@[a].id < next,
            forall|a: int, b: int| 0 <= a < i && a < b < n ==> #[trigger] cats@[a].id < #[trigger] cats@[b].id,
            forall|a: int, b: int| 0 <= a < i && a < b < n
                ==> #[trigger] cats@[a].category_id@ != #[trigger] cats@[b].category_id@,
        decreases n - i,
    {
        if cats[i].id < 1 || cats[i].id >= next {
            return false;
        }
        let mut j: usize = i + 1;
        while j < n
            invariant
                n == cats@.len(),
                i < n,
                i + 1 <= j <= n,
                forall|b: int| i < b < j ==> cats@[i as int].id < #[trigger] cats@[b].id,
                forall|b: int| i < b < j ==> cats@[i as int].category_id@ != #[trigger] cats@[b].category_id@,
            decreases n - j,
        {
            if cats[i].id >= cats[j].id || cats[i].category_id == cats[j].category_id {
                return false;
            }
            j += 1;
        }
        i += 1;
    }
    assert forall|a: int, b: int| 0 <= a < n && 0 <= b < n && a != b
        implies #[trigger] cats@[a].category_id@ != #[trigger] cats@[b].category_id@ by {
        if b < a {
            assert(cats@[b].category_id@ != cats@[a].category_id@);
        }
    }
    true
}

/// Ids within bounds and unique, most recent first: the record part of the
/// store's invariant.
fn check_records(recs: &Vec<expense_record::Model>, next: i32) -> (r: bool)
    ensures
        r == ((forall|i: int| 0 <= i < recs@.len() ==> 1 <= #[trigger] recs@[i].id < next)
            && (forall|i: int, j: int|
                0 <= i < recs@.len() && 0 <= j < recs@.len() && i != j ==> #[trigger] recs@[i].id != #[trigger] recs@[j].id)
            && (forall|i: int, j: int|
                0 <= i < j < recs@.len() ==> #[trigger] recs@[i].created_at >= #[trigger] recs@[j].created_at)),
{
    let n = recs.len();
    let mut i: usize = 0;
    while i < n
        invariant
            n == recs@.len(),
            i <= n,
            forall|a: int| 0 <= a < i ==> 1 <= #[trigger] recs@[a].id < next,
            forall|a: int, b: int| 0 <= a < i && a < b < n ==> #[trigger] recs@[a].id != #[trigger] recs@[b].id,
            forall|a: int, b: int| 0 <= a < i && a < b < n
                ==> #[trigger] recs@[a].created_at >= #[trigger] recs@[b].created_at,
        decreases n - i,
    {
        if recs[i].id < 1 || recs[i].id >= next {
            return false;
        }
        let mut j: usize = i + 1;
        while j < n
            invariant
                n == recs@.len(),
                i < n,
                i + 1 <= j <= n,
                forall|b: int| i < b < j ==> recs@[i as int].id != #[trigger] recs@[b].id,
                forall|b: int| i < b < j ==> recs@[i as int].created_at >= #[trigger] recs@[b].created_at,
            decreases n - j,
        {
            if recs[i].id == recs[j].id || recs[i].created_at < recs[j].created_at {
                return false;
            }
            j += 1;
        }
        i += 1;
    }
    assert forall|a: int, b: int| 0 <= a < n && 0 <= b < n && a != b
        implies #[trigger] recs@[a].id != #[trigger] recs@[b].id by {
        if b < a {
            assert(recs@[b].id != recs@[a].id);
        }
    }
    true
}

/// Every record names the key of some category.
fn check_references(cats: &Vec<category::Model>, recs: &Vec<expense_record::Model>) -> (r: bool)
    ensures
        r == (forall|i: int| 0 <= i < recs@.len()
            ==> rows_view(cats@, recs@, 1, 1).has_key(#[trigger] recs@[i].category_id@)),
{
    let ghost v = rows_view(cats@, recs@, 1, 1);
    let mut i: usize = 0;
    while i < recs.len()
        invariant
            i <= recs@.len(),
            v == rows_view(cats@, recs@, 1, 1),
            forall|a: int| 0 <= a < i ==> v.has_key(#[trigger] recs@[a].category_id@),
        decreases recs@.len() - i,
    {
        match find_category(cats, &recs[i].category_id) {
            Some(k) => {
                assert(v.categories[k as int].category_id@ == recs@[i as int].category_id@);
            },
            None => {
                assert(!v.has_key(recs@[i as int].category_id@));
                return false;
            },
        }
        i += 1;
    }
    true
}

/// `filter`, when set, equals `value`.
pub open spec fn text_matches(filter: Option<String>, value: String) -> bool {
    match filter {
        Some(t) => value@ == t@,
        None => true,
    }
}

/// Index of the category with key `key`, if any.
pub(crate) fn find_category(cats: &Vec<category::Model>, key: &String) -> (r: Option<usize>)
    ensures
        match r {
            Some(i) => i < cats@.len() && cats@[i as int].category_id@ == key@,
            None => forall|i: int| 0 <= i < cats@.len() ==> #[trigger] cats@[i].category_id@ != key@,
        },
{
    let mut i: usize = 0;
    while i < cats.len()
        invariant
            i <= cats@.len(),
            forall|j: int| 0 <= j < i ==> #[trigger] cats@[j].category_id@ != key@,
        decreases cats@.len() - i,
    {
        if cats[i].category_id == *key {
            return Some(i);
        }
        i += 1;
    }
    None
}

/// Index of the record with id `id`, if any.
pub(crate) fn find_record(recs: &Vec<expense_record::Model>, id: i32) -> (r: Option<usize>)
    ensures
        match r {
            Some(i) => i < recs@.len() && recs@[i as int].id == id,
            None => forall|i: int| 0 <= i < recs@.len() ==> #[trigger] recs@[i].id != id,
        },
{
    let mut i: usize = 0;
    while i < recs.len()
        invariant
            i <= recs@.len(),
            forall|j: int| 0 <= j < i ==> #[trigger] recs@[j].id != id,
        decreases recs@.len() - i,
    {
        if recs[i].id == id {
            return Some(i);
        }
        i += 1;
    }
    None
}

} // verus!
