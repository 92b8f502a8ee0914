//! What every feed's normalizer shares: its failure type, deadline arithmetic,
//! and storing a batch of normalized records.
use vstd::prelude::*;
use crate::spot::{AggregatedSpot, SpotRow, SpotSource};
use crate::store::{has_key, upsert_effect, SpotStore};

verus! {

/// Why one upstream record could not be read.
#[derive(Debug, Clone, Copy, PartialEq, Eq, Structural)]
pub enum NormalizeError {
    /// The frequency is not plain decimal text, or too large.
    BadFrequency,
    /// The event time cannot be read.
    BadTimestamp,
    /// The deadline falls outside the range of instants.
    TimeOutOfRange,
}

/// `start + window`, where it is an instant.
pub open spec fn deadline(start: i64, window: int) -> Option<i64> {
    if start + window <= i64::MAX {
        Some((start + window) as i64)
    } else {
        None
    }
}

/// Adds a non-negative window to an instant, `None` past the last instant.
pub fn add_window(start: i64, window: i128) -> (r: Option<i64>)
    requires
        0 <= window <= i64::MAX as i128 * 1_000_000,
    ensures
        r == deadline(start, window as int),
{
    let end: i128 = start as i128 + window;
    if end <= i64::MAX as i128 {
        Some(end as i64)
    } else {
        None
    }
}

/// How many of `0 .. n` satisfy `p`.
pub open spec fn count_where(n: nat, p: spec_fn(int) -> bool) -> nat
    decreases n,
{
    if n == 0 {
        0
    } else {
        count_where((n - 1) as nat, p) + if p(n - 1) { 1nat } else { 0nat }
    }
}

pub proof fn lemma_count_where_same(n: nat, p: spec_fn(int) -> bool, q: spec_fn(int) -> bool)
    requires
        forall|i: int| 0 <= i < n ==> #[trigger] p(i) == q(i),
    ensures
        count_where(n, p) == count_where(n, q),
    decreases n,
{
    if n > 0 {
        lemma_count_where_same((n - 1) as nat, p, q);
    }
}

proof fn lemma_count_where_le(n: nat, p: spec_fn(int) -> bool)
    ensures
        count_where(n, p) <= n,
    decreases n,
{
    if n > 0 {
        lemma_count_where_le((n - 1) as nat, p);
    }
}

/// What became of one batch of upstream records.
#[derive(Debug, Clone, Copy, PartialEq, Eq, Structural)]
pub struct IngestReport {
    pub fetched: usize,
    pub upserted: usize,
    pub parse_failed: usize,
    pub store_failed: usize,
}

pub open spec fn is_err_at(batch: Seq<Result<AggregatedSpot, NormalizeError>>) -> spec_fn(int) -> bool {
    |i: int| batch[i] is Err
}

/// A record that normalized and is fit for the store.
pub open spec fn storable(x: Result<AggregatedSpot, NormalizeError>) -> bool {
    x matches Ok(a) ==> a.wf() && a.source != SpotSource::SelfSpot
}

pub open spec fn key_stored(rows: Seq<SpotRow>, a: AggregatedSpot) -> bool {
    exists|j: int| 0 <= j < rows.len() && has_key(#[trigger] rows[j], a.source, a.external_id@)
}

proof fn lemma_upsert_keeps_keys(
    old: Seq<SpotRow>,
    new: Seq<SpotRow>,
    spot: AggregatedSpot,
    now: i64,
    id: u64,
    r: SpotRow,
    other: AggregatedSpot,
)
    requires
        upsert_effect(old, new, spot, now, id, r),
        key_stored(old, other),
    ensures
        key_stored(new, other),
{
    let j = choose|j: int| 0 <= j < old.len() && has_key(#[trigger] old[j], other.source, other.external_id@);
    if exists|i: int| 0 <= i < old.len() && has_key(#[trigger] old[i], spot.source, spot.external_id@) {
        let i = choose|i: int|
            0 <= i < old.len() && has_key(#[trigger] old[i], spot.source, spot.external_id@)
                && r == crate::store::refreshed(old[i], spot, now) && new == old.update(i, r);
        assert(has_key(new[j], other.source, other.external_id@));
    } else {
        let k = choose|k: int| 0 <= k <= old.len() && new == old.insert(k, r);
        let j2 = if j < k { j } else { j + 1 };
        assert(new[j2] == old[j]);
    }
}

proof fn lemma_upsert_stores_key(
    old: Seq<SpotRow>,
    new: Seq<SpotRow>,
    spot: AggregatedSpot,
    now: i64,
    id: u64,
    r: SpotRow,
)
    requires
        upsert_effect(old, new, spot, now, id, r),
    ensures
        key_stored(new, spot),
{
    if exists|i: int| 0 <= i < old.len() && has_key(#[trigger] old[i], spot.source, spot.external_id@) {
        let i = choose|i: int|
            0 <= i < old.len() && has_key(#[trigger] old[i], spot.source, spot.external_id@)
                && r == crate::store::refreshed(old[i], spot, now) && new == old.update(i, r);
        assert(has_key(new[i], spot.source, spot.external_id@));
    } else {
        let k = choose|k: int| 0 <= k <= old.len() && new == old.insert(k, r);
        assert(has_key(new[k], spot.source, spot.external_id@));
    }
}

/// Some row of `rows` has identifier `id`.
pub open spec fn holds_id(rows: Seq<SpotRow>, id: u64) -> bool {
    exists|j: int| 0 <= j < rows.len() && (#[trigger] rows[j]).id == id
}

/// Every identifier of `first` is the identifier of some row of `rows`.
#[verifier::opaque]
pub open spec fn ids_kept(first: Seq<SpotRow>, rows: Seq<SpotRow>) -> bool {
    forall|k: int| 0 <= k < first.len() ==> holds_id(rows, (#[trigger] first[k]).id)
}

proof fn lemma_ids_kept_same(rows: Seq<SpotRow>)
    ensures
        ids_kept(rows, rows),
{
    reveal(ids_kept);
    assert forall|k: int| 0 <= k < rows.len() implies holds_id(rows, (#[trigger] rows[k]).id) by {
        assert(rows[k].id == rows[k].id);
    }
}

proof fn lemma_upsert_keeps_ids(
    old: Seq<SpotRow>,
    new: Seq<SpotRow>,
    spot: AggregatedSpot,
    now: i64,
    id: u64,
    r: SpotRow,
    first: Seq<SpotRow>,
)
    requires
        upsert_effect(old, new, spot, now, id, r),
        ids_kept(first, old),
    ensures
        old.len() <= new.len() <= old.len() + 1,
        ids_kept(first, new),
{
    reveal(ids_kept);
    if exists|i: int| 0 <= i < old.len() && has_key(#[trigger] old[i], spot.source, spot.external_id@) {
        let i = choose|i: int|
            0 <= i < old.len() && has_key(#[trigger] old[i], spot.source, spot.external_id@)
                && r == crate::store::refreshed(old[i], spot, now) && new == old.update(i, r);
        assert forall|k: int| 0 <= k < first.len() implies holds_id(new, (#[trigger] first[k]).id) by {
            assert(holds_id(old, first[k].id));
            let j = choose|j: int| 0 <= j < old.len() && (#[trigger] old[j]).id == first[k].id;
            assert(new[j].id == old[j].id);
        }
    } else {
        let m = choose|m: int| 0 <= m <= old.len() && new == old.insert(m, r);
        assert forall|k: int| 0 <= k < first.len() implies holds_id(new, (#[trigger] first[k]).id) by {
            assert(holds_id(old, first[k].id));
            let j = choose|j: int| 0 <= j < old.len() && (#[trigger] old[j]).id == first[k].id;
            let j2 = if j < m { j } else { j + 1 };
            assert(new[j2] == old[j]);
        }
    }
}

/// Stores each normalized record of a batch in turn, skipping those that failed
/// to normalize; one failure never stops the rest. When the store has an
/// identifier left for every record, every record that normalized is stored.
pub fn ingest_batch(
    store: &mut SpotStore,
    batch: &Vec<Result<AggregatedSpot, NormalizeError>>,
    now: i64,
) -> (r: IngestReport)
    requires
        old(store).wf(),
        forall|i: int| 0 <= i < batch@.len() ==> storable(#[trigger] batch@[i]),
    ensures
        final(store).wf(),
        r.fetched == batch@.len(),
        r.parse_failed == count_where(batch@.len(), is_err_at(batch@)),
        r.upserted + r.parse_failed + r.store_failed == batch@.len(),
        old(store)@.len() <= final(store)@.len() <= old(store)@.len() + r.upserted,
        ids_kept(old(store)@, final(store)@),
        old(store).next_id() + batch@.len() <= u64::MAX ==> {
            &&& r.store_failed == 0
            &&& forall|i: int| 0 <= i < batch@.len() && (#[trigger] batch@[i]) is Ok ==> key_stored(
                final(store)@,
                batch@[i]->Ok_0,
            )
        },
{
    let ghost start = store.next_id();
    let ghost first = store@;
    let ghost p = is_err_at(batch@);
    let n = batch.len();
    let mut upserted: usize = 0;
    let mut parse_failed: usize = 0;
    let mut store_failed: usize = 0;
    let mut i: usize = 0;
    proof {
        lemma_ids_kept_same(first);
    }
    while i < n
        invariant
            n == batch@.len(),
            first == old(store)@,
            p == is_err_at(batch@),
            forall|k: int| 0 <= k < batch@.len() ==> storable(#[trigger] batch@[k]),
            store.wf(),
            0 <= i <= n,
            parse_failed == count_where(i as nat, p),
            upserted + parse_failed + store_failed == i,
            store.next_id() <= start + upserted,
            store.next_id() >= start,
            first.len() <= store@.len() <= first.len() + upserted,
            ids_kept(first, store@),
            start + n <= u64::MAX ==> store_failed == 0,
            start + n <= u64::MAX ==> forall|k: int| 0 <= k < i && (#[trigger] batch@[k]) is Ok ==> key_stored(
                store@,
                batch@[k]->Ok_0,
            ),
        decreases n - i,
    {
        proof {
            lemma_count_where_le(i as nat, p);
        }
        match &batch[i] {
            Ok(spot) => {
                let ghost before = store@;
                let ghost id = store.next_id();
                assert(storable(batch@[i as int]));
                match store.upsert_aggregated_spot(spot, now) {
                    Ok(row) => {
                        proof {
                            lemma_upsert_keeps_ids(before, store@, *spot, now, id, row, first);
                            if start + n <= u64::MAX {
                                assert forall|k: int| 0 <= k < i + 1 && (#[trigger] batch@[k]) is Ok implies key_stored(
                                    store@,
                                    batch@[k]->Ok_0,
                                ) by {
                                    if k < i {
                                        lemma_upsert_keeps_keys(before, store@, *spot, now, id, row, batch@[k]->Ok_0);
                                    } else {
                                        lemma_upsert_stores_key(before, store@, *spot, now, id, row);
                                    }
                                }
                            }
                        }
                        upserted = upserted + 1;
                    },
                    Err(_) => {
                        assert(store@ == before);
                        store_failed = store_failed + 1;
                    },
                }
            },
            Err(_) => {
                parse_failed = parse_failed + 1;
            },
        }
        i = i + 1;
    }
    IngestReport { fetched: n, upserted, parse_failed, store_failed }
}

} // verus!
