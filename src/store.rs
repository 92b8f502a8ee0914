//! The spot store: rows kept newest first, merged by upstream key, expiring by deadline.
use vstd::prelude::*;
use crate::error::AppError;
use crate::spot::{copy_opt, opt_view, AggregatedSpot, SpotRow, SpotSource};
use crate::time::MICROS_PER_MINUTE;

verus! {

broadcast use vstd::seq_lib::group_seq_properties;

/// How long a self-spot stays active: thirty minutes.
pub const SELF_SPOT_WINDOW: i64 = 1_800_000_000;

/// Two rows reported by the same feed under the same upstream identifier.
pub open spec fn same_upstream_key(a: SpotRow, b: SpotRow) -> bool {
    &&& a.source == b.source
    &&& a.external_id is Some
    &&& b.external_id is Some
    &&& a.external_id->0@ == b.external_id->0@
}

/// Two self-spots by the same owner for the same program.
pub open spec fn same_self_key(a: SpotRow, b: SpotRow) -> bool {
    &&& a.source == SpotSource::SelfSpot
    &&& b.source == SpotSource::SelfSpot
    &&& a.submitted_by == b.submitted_by
    &&& opt_view(a.program_slug) == opt_view(b.program_slug)
}

/// What must hold of a row that stands before row `b`.
pub open spec fn pair_ok(a: SpotRow, b: SpotRow) -> bool {
    &&& a.spotted_at >= b.spotted_at
    &&& a.id != b.id
    &&& !same_upstream_key(a, b)
    &&& same_self_key(a, b) ==> (a.expires_at <= b.spotted_at || b.expires_at <= a.spotted_at)
}

/// What must hold of every row.
pub open spec fn row_ok(r: SpotRow, next_id: u64) -> bool {
    &&& r.id < next_id
    &&& r.spotted_at < r.expires_at
    &&& (r.source == SpotSource::SelfSpot <==> r.external_id is None)
}

pub open spec fn rows_wf(rows: Seq<SpotRow>, next_id: u64) -> bool {
    &&& forall|i: int| 0 <= i < rows.len() ==> row_ok(#[trigger] rows[i], next_id)
    &&& forall|i: int, j: int| 0 <= i < j < rows.len() ==> pair_ok(#[trigger] rows[i], #[trigger] rows[j])
}

/// A row that carries the upstream key `(source, ext)`.
pub open spec fn has_key(r: SpotRow, source: SpotSource, ext: Seq<char>) -> bool {
    &&& r.source == source
    &&& r.external_id is Some
    &&& r.external_id->0@ == ext
}

/// An unexpired self-spot of `owner` for `program` stands in `rows` at `now`.
pub open spec fn self_spot_blocked(rows: Seq<SpotRow>, owner: u128, program: Seq<char>, now: int) -> bool {
    exists|i: int|
        0 <= i < rows.len() && #[trigger] blocks(rows[i], owner, program, now)
}

pub open spec fn blocks(r: SpotRow, owner: u128, program: Seq<char>, now: int) -> bool {
    &&& r.source == SpotSource::SelfSpot
    &&& r.submitted_by == Some(owner)
    &&& opt_view(r.program_slug) == Some(program)
    &&& r.expires_at > now
}

/// A stored row re-reported by its feed: the mutable fields are taken from the report.
pub open spec fn refreshed(r: SpotRow, spot: AggregatedSpot, now: i64) -> SpotRow {
    SpotRow {
        frequency_hz: spot.frequency_hz,
        mode: spot.mode,
        reference: spot.reference,
        reference_name: spot.reference_name,
        comments: spot.comments,
        updated_at: now,
        ..r
    }
}

/// The row first stored for an upstream report.
pub open spec fn fresh_row(spot: AggregatedSpot, id: u64, now: i64) -> SpotRow {
    SpotRow {
        id: id,
        callsign: spot.callsign,
        program_slug: spot.program_slug,
        source: spot.source,
        external_id: Some(spot.external_id),
        frequency_hz: spot.frequency_hz,
        mode: spot.mode,
        reference: spot.reference,
        reference_name: spot.reference_name,
        spotter: spot.spotter,
        spotter_grid: spot.spotter_grid,
        location_desc: spot.location_desc,
        country_code: spot.country_code,
        state_abbr: spot.state_abbr,
        comments: spot.comments,
        snr: spot.snr,
        wpm: spot.wpm,
        submitted_by: None,
        spotted_at: spot.spotted_at,
        expires_at: spot.expires_at,
        created_at: now,
        updated_at: now,
    }
}

/// `new` is `old` with `row` put in at a place that keeps rows newest first.
pub open spec fn inserted(old: Seq<SpotRow>, new: Seq<SpotRow>, row: SpotRow) -> bool {
    exists|k: int| 0 <= k <= old.len() && new == old.insert(k, row)
}

/// What an upsert of `spot` at `now` does to the rows, with `r` the row it returns.
pub open spec fn upsert_effect(
    old: Seq<SpotRow>,
    new: Seq<SpotRow>,
    spot: AggregatedSpot,
    now: i64,
    id: u64,
    r: SpotRow,
) -> bool {
    if exists|i: int| 0 <= i < old.len() && has_key(#[trigger] old[i], spot.source, spot.external_id@) {
        exists|i: int|
            0 <= i < old.len() && has_key(#[trigger] old[i], spot.source, spot.external_id@)
                && r == refreshed(old[i], spot, now) && new == old.update(i, r)
    } else {
        r == fresh_row(spot, id, now) && inserted(old, new, r)
    }
}

/// Rows that the sweep at `now` keeps: those whose deadline is not in the past.
pub open spec fn unexpired(now: int) -> spec_fn(SpotRow) -> bool {
    |r: SpotRow| r.expires_at >= now
}

/// The rows of a listing before paging: active, recent enough, matching every filter.
#[derive(Debug)]
pub struct ListSpotsParams {
    pub program: Option<String>,
    pub callsign: Option<String>,
    pub source: Option<SpotSource>,
    pub mode: Option<String>,
    pub state: Option<String>,
    pub max_age_minutes: i64,
    pub limit: i64,
    pub cursor: Option<i64>,
}

pub open spec fn filter_ok(f: Option<String>, v: Seq<char>) -> bool {
    f is None || f->0@ == v
}

pub open spec fn opt_filter_ok(f: Option<String>, v: Option<String>) -> bool {
    f is None || opt_view(v) == Some(f->0@)
}

pub open spec fn spot_matches(q: ListSpotsParams, now: int, r: SpotRow) -> bool {
    &&& r.expires_at > now
    &&& r.spotted_at >= now - q.max_age_minutes * MICROS_PER_MINUTE
    &&& opt_filter_ok(q.program, r.program_slug)
    &&& filter_ok(q.callsign, r.callsign@)
    &&& (q.source is None || q.source == Some(r.source))
    &&& filter_ok(q.mode, r.mode@)
    &&& opt_filter_ok(q.state, r.state_abbr)
    &&& (q.cursor is None || r.spotted_at < q.cursor->0)
}

pub open spec fn matcher(q: ListSpotsParams, now: int) -> spec_fn(SpotRow) -> bool {
    |r: SpotRow| spot_matches(q, now, r)
}

/// The rows a listing returns: the first `limit + 1` matching rows, newest first.
pub open spec fn listed(rows: Seq<SpotRow>, q: ListSpotsParams, now: int) -> Seq<SpotRow> {
    let m = rows.filter(matcher(q, now));
    if m.len() <= q.limit + 1 {
        m
    } else {
        m.take(q.limit + 1)
    }
}

/// The largest page a listing may ask for.
pub const MAX_LIMIT: i64 = 250;

/// A self-spot as submitted by its owner.
#[derive(Debug)]
pub struct InsertSelfSpotParams {
    pub participant_id: u128,
    pub callsign: String,
    pub program_slug: String,
    pub frequency_hz: u64,
    pub mode: String,
    pub reference: Option<String>,
    pub comments: Option<String>,
}

/// The row stored for a self-spot submitted at `now`.
pub open spec fn self_row(p: InsertSelfSpotParams, id: u64, now: i64) -> SpotRow {
    SpotRow {
        id: id,
        callsign: p.callsign,
        program_slug: Some(p.program_slug),
        source: SpotSource::SelfSpot,
        external_id: None,
        frequency_hz: p.frequency_hz,
        mode: p.mode,
        reference: p.reference,
        reference_name: None,
        spotter: None,
        spotter_grid: None,
        location_desc: None,
        country_code: None,
        state_abbr: None,
        comments: p.comments,
        snr: None,
        wpm: None,
        submitted_by: Some(p.participant_id),
        spotted_at: now,
        expires_at: (now + SELF_SPOT_WINDOW) as i64,
        created_at: now,
        updated_at: now,
    }
}

/// Every spot, newest first.
pub struct SpotStore {
    rows: Vec<SpotRow>,
    next_id: u64,
}

impl View for SpotStore {
    type V = Seq<SpotRow>;

    closed spec fn view(&self) -> Seq<SpotRow> {
        self.rows@
    }
}

proof fn lemma_remove_wf(rows: Seq<SpotRow>, next_id: u64, i: int)
    requires
        rows_wf(rows, next_id),
        0 <= i < rows.len(),
    ensures
        rows_wf(rows.remove(i), next_id),
{
    let s = rows.remove(i);
    assert forall|a: int, b: int| 0 <= a < b < s.len() implies pair_ok(#[trigger] s[a], #[trigger] s[b]) by {
        let a2 = if a < i { a } else { a + 1 };
        let b2 = if b < i { b } else { b + 1 };
        assert(s[a] == rows[a2] && s[b] == rows[b2]);
    }
    assert forall|a: int| 0 <= a < s.len() implies row_ok(#[trigger] s[a], next_id) by {
        let a2 = if a < i { a } else { a + 1 };
        assert(s[a] == rows[a2]);
    }
}

proof fn lemma_update_wf(rows: Seq<SpotRow>, next_id: u64, i: int, r: SpotRow)
    requires
        rows_wf(rows, next_id),
        0 <= i < rows.len(),
        r.id == rows[i].id,
        r.source == rows[i].source,
        r.external_id == rows[i].external_id,
        r.submitted_by == rows[i].submitted_by,
        r.program_slug == rows[i].program_slug,
        r.spotted_at == rows[i].spotted_at,
        r.expires_at == rows[i].expires_at,
    ensures
        rows_wf(rows.update(i, r), next_id),
{
    let s = rows.update(i, r);
    assert forall|a: int, b: int| 0 <= a < b < s.len() implies pair_ok(#[trigger] s[a], #[trigger] s[b]) by {
        assert(pair_ok(rows[a], rows[b]));
    }
    assert forall|a: int| 0 <= a < s.len() implies row_ok(#[trigger] s[a], next_id) by {
        assert(row_ok(rows[a], next_id));
    }
}

proof fn lemma_insert_wf(rows: Seq<SpotRow>, next_id: u64, k: int, r: SpotRow)
    requires
        rows_wf(rows, next_id),
        0 <= k <= rows.len(),
        next_id < u64::MAX,
        r.id == next_id,
        r.spotted_at < r.expires_at,
        r.source == SpotSource::SelfSpot <==> r.external_id is None,
        forall|j: int| 0 <= j < k ==> (#[trigger] rows[j]).spotted_at >= r.spotted_at,
        forall|j: int| k <= j < rows.len() ==> (#[trigger] rows[j]).spotted_at < r.spotted_at,
        forall|j: int| 0 <= j < rows.len() ==> !same_upstream_key(#[trigger] rows[j], r),
        forall|j: int| 0 <= j < rows.len() && same_self_key(#[trigger] rows[j], r)
            ==> rows[j].expires_at <= r.spotted_at,
    ensures
        rows_wf(rows.insert(k, r), (next_id + 1) as u64),
{
    let s = rows.insert(k, r);
    let n2 = (next_id + 1) as u64;
    assert forall|a: int| 0 <= a < s.len() implies row_ok(#[trigger] s[a], n2) by {
        if a < k {
            assert(s[a] == rows[a] && row_ok(rows[a], next_id));
        } else if a > k {
            assert(s[a] == rows[a - 1] && row_ok(rows[a - 1], next_id));
        }
    }
    assert forall|a: int, b: int| 0 <= a < b < s.len() implies pair_ok(#[trigger] s[a], #[trigger] s[b]) by {
        if a < k && b < k {
            assert(pair_ok(rows[a], rows[b]));
        } else if a < k && b == k {
            assert(row_ok(rows[a], next_id));
            assert(s[a] == rows[a]);
        } else if a < k {
            assert(pair_ok(rows[a], rows[b - 1]));
        } else if a == k {
            assert(s[b] == rows[b - 1]);
            assert(row_ok(rows[b - 1], next_id));
        } else {
            assert(pair_ok(rows[a - 1], rows[b - 1]));
        }
    }
}

impl SpotStore {
    pub closed spec fn wf(&self) -> bool {
        rows_wf(self.rows@, self.next_id)
    }

    /// The identifier the next new row receives.
    pub closed spec fn next_id(&self) -> u64 {
        self.next_id
    }

    /// Whether the store can still take a new row.
    pub open spec fn has_room(&self) -> bool {
        self.next_id() < u64::MAX
    }

    /// An empty store.
    pub fn new() -> (r: SpotStore)
        ensures
            r.wf(),
            r@ == Seq::<SpotRow>::empty(),
            r.next_id() == 1,
    {
        SpotStore { rows: Vec::new(), next_id: 1 }
    }

    /// Number of stored rows, active or not.
    pub fn len(&self) -> (r: usize)
        ensures
            r == self@.len(),
    {
        self.rows.len()
    }

    /// The row at `i`, newest first.
    pub fn row(&self, i: usize) -> (r: &SpotRow)
        requires
            i < self@.len(),
        ensures
            *r == self@[i as int],
    {
        &self.rows[i]
    }

    /// Every row is well formed and the rows stand newest first.
    pub proof fn lemma_wf(&self)
        requires
            self.wf(),
        ensures
            rows_wf(self@, self.next_id()),
    {
    }

    /// Index of the row with upstream key `(source, ext)`, if one is stored.
    fn find_key(&self, source: SpotSource, ext: &String) -> (r: Option<usize>)
        ensures
            match r {
                Some(i) => i < self@.len() && has_key(self@[i as int], source, ext@),
                None => forall|i: int| 0 <= i < self@.len() ==> !has_key(#[trigger] self@[i], source, ext@),
            },
    {
        let mut i: usize = 0;
        while i < self.rows.len()
            invariant
                0 <= i <= self.rows@.len(),
                forall|j: int| 0 <= j < i ==> !has_key(#[trigger] self.rows@[j], source, ext@),
            decreases self.rows@.len() - i,
        {
            let r = &self.rows[i];
            if r.source == source {
                match &r.external_id {
                    Some(e) => {
                        if e.eq(ext) {
                            return Some(i);
                        }
                    },
                    None => {},
                }
            }
            i = i + 1;
        }
        None
    }

    /// Where a row seen at `t` goes so that rows stay newest first.
    fn insert_index(&self, t: i64) -> (k: usize)
        requires
            self.wf(),
        ensures
            k <= self@.len(),
            forall|j: int| 0 <= j < k ==> (#[trigger] self@[j]).spotted_at >= t,
            forall|j: int| k <= j < self@.len() ==> (#[trigger] self@[j]).spotted_at < t,
    {
        let mut k: usize = 0;
        while k < self.rows.len() && self.rows[k].spotted_at >= t
            invariant
                0 <= k <= self.rows@.len(),
                forall|j: int| 0 <= j < k ==> (#[trigger] self.rows@[j]).spotted_at >= t,
            decreases self.rows@.len() - k,
        {
            k = k + 1;
        }
        proof {
            if k < self.rows@.len() {
                assert forall|j: int| k <= j < self.rows@.len() implies (#[trigger] self.rows@[j]).spotted_at < t by {
                    if j > k {
                        assert(pair_ok(self.rows@[k as int], self.rows@[j]));
                    }
                }
            }
        }
        k
    }

    /// Stores an upstream report. A stored row with the same `(source, external_id)`
    /// gets the report's frequency, mode, reference, reference name and comments,
    /// and `updated_at = now`, keeping its identity and times; else a new row is
    /// stored. Returns the resulting row. Fails with `StoreFull` only when a new
    /// row is needed and no identifier is left.
    pub fn upsert_aggregated_spot(&mut self, spot: &AggregatedSpot, now: i64) -> (r: Result<SpotRow, AppError>)
        requires
            old(self).wf(),
            spot.wf(),
            spot.source != SpotSource::SelfSpot,
        ensures
            final(self).wf(),
            match r {
                Ok(row) => upsert_effect(old(self)@, final(self)@, *spot, now, old(self).next_id(), row),
                Err(e) => e is StoreFull && !old(self).has_room() && final(self)@ == old(self)@
                    && forall|i: int| 0 <= i < old(self)@.len() ==> !has_key(#[trigger] old(self)@[i], spot.source, spot.external_id@),
            },
            final(self).next_id() >= old(self).next_id(),
            r is Ok && final(self).next_id() != old(self).next_id() ==> final(self).next_id() == old(self).next_id() + 1,
    {
        match self.find_key(spot.source, &spot.external_id) {
            Some(i) => {
                let ghost old_rows = self.rows@;
                let old_row = &self.rows[i];
                let row = SpotRow {
                    id: old_row.id,
                    callsign: old_row.callsign.clone(),
                    program_slug: copy_opt(&old_row.program_slug),
                    source: old_row.source,
                    external_id: copy_opt(&old_row.external_id),
                    frequency_hz: spot.frequency_hz,
                    mode: spot.mode.clone(),
                    reference: copy_opt(&spot.reference),
                    reference_name: copy_opt(&spot.reference_name),
                    spotter: copy_opt(&old_row.spotter),
                    spotter_grid: copy_opt(&old_row.spotter_grid),
                    location_desc: copy_opt(&old_row.location_desc),
                    country_code: copy_opt(&old_row.country_code),
                    state_abbr: copy_opt(&old_row.state_abbr),
                    comments: copy_opt(&spot.comments),
                    snr: old_row.snr,
                    wpm: old_row.wpm,
                    submitted_by: old_row.submitted_by,
                    spotted_at: old_row.spotted_at,
                    expires_at: old_row.expires_at,
                    created_at: old_row.created_at,
                    updated_at: now,
                };
                assert(row == refreshed(old_rows[i as int], *spot, now));
                let out = row.duplicate();
                self.rows.set(i, row);
                proof {
                    lemma_update_wf(old_rows, self.next_id, i as int, out);
                }
                Ok(out)
            },
            None => {
                if self.next_id == u64::MAX {
                    return Err(AppError::StoreFull);
                }
                let row = SpotRow {
                    id: self.next_id,
                    callsign: spot.callsign.clone(),
                    program_slug: copy_opt(&spot.program_slug),
                    source: spot.source,
                    external_id: Some(spot.external_id.clone()),
                    frequency_hz: spot.frequency_hz,
                    mode: spot.mode.clone(),
                    reference: copy_opt(&spot.reference),
                    reference_name: copy_opt(&spot.reference_name),
                    spotter: copy_opt(&spot.spotter),
                    spotter_grid: copy_opt(&spot.spotter_grid),
                    location_desc: copy_opt(&spot.location_desc),
                    country_code: copy_opt(&spot.country_code),
                    state_abbr: copy_opt(&spot.state_abbr),
                    comments: copy_opt(&spot.comments),
                    snr: spot.snr,
                    wpm: spot.wpm,
                    submitted_by: None,
                    spotted_at: spot.spotted_at,
                    expires_at: spot.expires_at,
                    created_at: now,
                    updated_at: now,
                };
                let out = row.duplicate();
                let k = self.insert_index(spot.spotted_at);
                let ghost old_rows = self.rows@;
                proof {
                    assert forall|j: int| 0 <= j < old_rows.len() implies !same_upstream_key(#[trigger] old_rows[j], out) by {
                        assert(!has_key(old_rows[j], spot.source, spot.external_id@));
                    }
                    lemma_insert_wf(old_rows, self.next_id, k as int, out);
                }
                self.rows.insert(k, row);
                self.next_id = self.next_id + 1;
                proof {
                    assert(self.rows@ == old_rows.insert(k as int, out));
                }
                Ok(out)
            },
        }
    }

    /// Stores a self-spot seen at `now`, active for thirty minutes. Fails with
    /// `SelfSpotExists` exactly when the owner has an unexpired self-spot for the
    /// program; else with `StoreFull` only when no identifier is left.
    pub fn insert_self_spot(&mut self, params: &InsertSelfSpotParams, now: i64) -> (r: Result<SpotRow, AppError>)
        requires
            old(self).wf(),
            now <= i64::MAX - SELF_SPOT_WINDOW,
        ensures
            final(self).wf(),
            final(self).next_id() >= old(self).next_id(),
            self_spot_blocked(old(self)@, params.participant_id, params.program_slug@, now as int) ==> r matches Err(
                AppError::SelfSpotExists,
            ),
            match r {
                Ok(row) => {
                    &&& !self_spot_blocked(old(self)@, params.participant_id, params.program_slug@, now as int)
                    &&& row == self_row(*params, old(self).next_id(), now)
                    &&& inserted(old(self)@, final(self)@, row)
                    &&& final(self).next_id() == old(self).next_id() + 1
                },
                Err(e) => final(self)@ == old(self)@ && ((e is SelfSpotExists && self_spot_blocked(
                    old(self)@,
                    params.participant_id,
                    params.program_slug@,
                    now as int,
                )) || (e is StoreFull && !old(self).has_room() && !self_spot_blocked(
                    old(self)@,
                    params.participant_id,
                    params.program_slug@,
                    now as int,
                ))),
            },
    {
        let mut i: usize = 0;
        while i < self.rows.len()
            invariant
                rows_wf(self.rows@, self.next_id),
                self.rows@ == old(self).rows@,
                self.next_id == old(self).next_id,
                0 <= i <= self.rows@.len(),
                forall|j: int| 0 <= j < i ==> !blocks(#[trigger] self.rows@[j], params.participant_id, params.program_slug@, now as int),
            decreases self.rows@.len() - i,
        {
            let r = &self.rows[i];
            let same_program = match &r.program_slug {
                Some(p) => p.eq(&params.program_slug),
                None => false,
            };
            if r.source == SpotSource::SelfSpot && r.submitted_by == Some(params.participant_id) && same_program
                && r.expires_at > now {
                assert(blocks(self.rows@[i as int], params.participant_id, params.program_slug@, now as int));
                return Err(AppError::SelfSpotExists);
            }
            i = i + 1;
        }
        if self.next_id == u64::MAX {
            return Err(AppError::StoreFull);
        }
        let row = SpotRow {
            id: self.next_id,
            callsign: params.callsign.clone(),
            program_slug: Some(params.program_slug.clone()),
            source: SpotSource::SelfSpot,
            external_id: None,
            frequency_hz: params.frequency_hz,
            mode: params.mode.clone(),
            reference: copy_opt(&params.reference),
            reference_name: None,
            spotter: None,
            spotter_grid: None,
            location_desc: None,
            country_code: None,
            state_abbr: None,
            comments: copy_opt(&params.comments),
            snr: None,
            wpm: None,
            submitted_by: Some(params.participant_id),
            spotted_at: now,
            expires_at: now + SELF_SPOT_WINDOW,
            created_at: now,
            updated_at: now,
        };
        let out = row.duplicate();
        let k = self.insert_index(now);
        let ghost old_rows = self.rows@;
        proof {
            assert forall|j: int| 0 <= j < old_rows.len() && same_self_key(#[trigger] old_rows[j], out)
                implies old_rows[j].expires_at <= out.spotted_at by {
                assert(!blocks(old_rows[j], params.participant_id, params.program_slug@, now as int));
            }
            assert forall|j: int| 0 <= j < old_rows.len() implies !same_upstream_key(#[trigger] old_rows[j], out) by {}
            lemma_insert_wf(old_rows, self.next_id, k as int, out);
        }
        self.rows.insert(k, row);
        self.next_id = self.next_id + 1;
        proof {
            assert(self.rows@ == old_rows.insert(k as int, out));
        }
        Ok(out)
    }

    /// The row with identifier `id`, if one is stored.
    pub fn get_spot(&self, id: u64) -> (r: Option<SpotRow>)
        ensures
            match r {
                Some(row) => row.id == id && self@.contains(row),
                None => forall|i: int| 0 <= i < self@.len() ==> (#[trigger] self@[i]).id != id,
            },
    {
        match self.index_of(id) {
            Some(i) => Some(self.rows[i].duplicate()),
            None => None,
        }
    }

    fn index_of(&self, id: u64) -> (r: Option<usize>)
        ensures
            match r {
                Some(i) => i < self@.len() && self@[i as int].id == id,
                None => forall|i: int| 0 <= i < self@.len() ==> (#[trigger] self@[i]).id != id,
            },
    {
        let mut i: usize = 0;
        while i < self.rows.len()
            invariant
                0 <= i <= self.rows@.len(),
                forall|j: int| 0 <= j < i ==> (#[trigger] self.rows@[j]).id != id,
            decreases self.rows@.len() - i,
        {
            if self.rows[i].id == id {
                return Some(i);
            }
            i = i + 1;
        }
        None
    }

    /// Removes the row with identifier `id` if `owner` submitted it. Reports
    /// whether a row was removed; a missing row and one of another owner look alike.
    pub fn delete_own_spot(&mut self, id: u64, owner: u128) -> (r: bool)
        requires
            old(self).wf(),
        ensures
            final(self).wf(),
            final(self).next_id() == old(self).next_id(),
            r == exists|i: int| 0 <= i < old(self)@.len() && (#[trigger] old(self)@[i]).id == id
                && old(self)@[i].submitted_by == Some(owner),
            r ==> exists|i: int| 0 <= i < old(self)@.len() && (#[trigger] old(self)@[i]).id == id
                && final(self)@ == old(self)@.remove(i),
            !r ==> final(self)@ == old(self)@,
    {
        match self.index_of(id) {
            Some(i) => {
                if self.rows[i].submitted_by == Some(owner) {
                    let ghost old_rows = self.rows@;
                    proof {
                        lemma_remove_wf(old_rows, self.next_id, i as int);
                    }
                    self.rows.remove(i);
                    true
                } else {
                    proof {
                        self.lemma_id_unique(i as int);
                    }
                    false
                }
            },
            None => false,
        }
    }

    proof fn lemma_id_unique(&self, i: int)
        requires
            self.wf(),
            0 <= i < self@.len(),
        ensures
            forall|j: int| 0 <= j < self@.len() && j != i ==> (#[trigger] self@[j]).id != self@[i].id,
    {
        assert forall|j: int| 0 <= j < self@.len() && j != i implies (#[trigger] self@[j]).id != self@[i].id by {
            if j < i {
                assert(pair_ok(self.rows@[j], self.rows@[i]));
            } else {
                assert(pair_ok(self.rows@[i], self.rows@[j]));
            }
        }
    }

    /// Removes the row with identifier `id`, whoever submitted it. Reports
    /// whether a row was removed.
    pub fn admin_delete_spot(&mut self, id: u64) -> (r: bool)
        requires
            old(self).wf(),
        ensures
            final(self).wf(),
            final(self).next_id() == old(self).next_id(),
            r == exists|i: int| 0 <= i < old(self)@.len() && (#[trigger] old(self)@[i]).id == id,
            r ==> exists|i: int| 0 <= i < old(self)@.len() && (#[trigger] old(self)@[i]).id == id
                && final(self)@ == old(self)@.remove(i),
            !r ==> final(self)@ == old(self)@,
    {
        match self.index_of(id) {
            Some(i) => {
                let ghost old_rows = self.rows@;
                proof {
                    lemma_remove_wf(old_rows, self.next_id, i as int);
                }
                self.rows.remove(i);
                true
            },
            None => false,
        }
    }

    /// Removes every row whose deadline is in the past, of any source; keeps the
    /// others in order. Returns how many rows were removed.
    pub fn delete_expired_spots(&mut self, now: i64) -> (r: u64)
        requires
            old(self).wf(),
        ensures
            final(self).wf(),
            final(self).next_id() == old(self).next_id(),
            final(self)@ == old(self)@.filter(unexpired(now as int)),
            r == old(self)@.len() - final(self)@.len(),
            forall|i: int| 0 <= i < old(self)@.len() && (#[trigger] old(self)@[i]).expires_at >= now
                ==> final(self)@.contains(old(self)@[i]),
            forall|j: int| 0 <= j < final(self)@.len() ==> (#[trigger] final(self)@[j]).expires_at >= now,
    {
        let ghost old_rows = self.rows@;
        let ghost pred = unexpired(now as int);
        let mut kept: Vec<SpotRow> = Vec::new();
        let ghost mut from: Seq<int> = Seq::empty();
        let n = self.rows.len();
        let mut i: usize = 0;
        while i < n
            invariant
                n == old_rows.len(),
                pred == unexpired(now as int),
                self.rows@ == old_rows,
                rows_wf(old_rows, self.next_id),
                0 <= i <= n,
                kept@ == old_rows.take(i as int).filter(pred),
                rows_wf(kept@, self.next_id),
                from.len() == kept@.len(),
                forall|m: int| 0 <= m < from.len() ==> 0 <= #[trigger] from[m] < i && kept@[m] == old_rows[from[m]],
            decreases n - i,
        {
            proof {
                assert(old_rows.take(i as int + 1) =~= old_rows.take(i as int).push(old_rows[i as int]));
                old_rows.take(i as int).lemma_filter_push(old_rows[i as int], pred);
                assert(pred(old_rows[i as int]) == (old_rows[i as int].expires_at >= now));
            }
            if self.rows[i].expires_at >= now {
                let row = self.rows[i].duplicate();
                proof {
                    let s2 = kept@.push(row);
                    assert forall|a: int, b: int| 0 <= a < b < s2.len() implies pair_ok(#[trigger] s2[a], #[trigger] s2[b]) by {
                        if b == s2.len() - 1 {
                            assert(pair_ok(old_rows[from[a]], old_rows[i as int]));
                        } else {
                            assert(pair_ok(kept@[a], kept@[b]));
                        }
                    }
                    assert forall|a: int| 0 <= a < s2.len() implies row_ok(#[trigger] s2[a], self.next_id) by {
                        if a < kept@.len() {
                            assert(row_ok(kept@[a], self.next_id));
                        } else {
                            assert(row_ok(old_rows[i as int], self.next_id));
                        }
                    }
                    from = from.push(i as int);
                }
                kept.push(row);
            }
            i = i + 1;
        }
        proof {
            assert(old_rows.take(n as int) =~= old_rows);
            old_rows.lemma_filter_len(pred);
            broadcast use vstd::seq_lib::group_filter_ensures;
        }
        let removed = (n - kept.len()) as u64;
        self.rows = kept;
        removed
    }

    /// Whether `r` passes the listing's filters.
    fn row_matches(q: &ListSpotsParams, now: i64, cutoff: i128, r: &SpotRow) -> (b: bool)
        requires
            cutoff == now - q.max_age_minutes * MICROS_PER_MINUTE,
        ensures
            b == spot_matches(*q, now as int, *r),
    {
        let program_ok = match &q.program {
            Some(p) => match &r.program_slug {
                Some(v) => p.eq(v),
                None => false,
            },
            None => true,
        };
        let state_ok = match &q.state {
            Some(p) => match &r.state_abbr {
                Some(v) => p.eq(v),
                None => false,
            },
            None => true,
        };
        let callsign_ok = match &q.callsign {
            Some(c) => c.eq(&r.callsign),
            None => true,
        };
        let mode_ok = match &q.mode {
            Some(m) => m.eq(&r.mode),
            None => true,
        };
        let source_ok = match q.source {
            Some(s) => s == r.source,
            None => true,
        };
        let cursor_ok = match q.cursor {
            Some(c) => r.spotted_at < c,
            None => true,
        };
        r.expires_at > now && r.spotted_at as i128 >= cutoff && program_ok && callsign_ok && source_ok
            && mode_ok && state_ok && cursor_ok
    }

    /// The first `limit + 1` rows that are active at `now`, seen within
    /// `max_age_minutes` of `now`, older than the cursor if one is given, and
    /// equal to every filter given; newest first.
    pub fn list_spots(&self, q: &ListSpotsParams, now: i64) -> (r: Vec<SpotRow>)
        requires
            self.wf(),
            0 <= q.limit <= MAX_LIMIT,
        ensures
            r@ == listed(self@, *q, now as int),
            forall|i: int| 0 <= i < r@.len() ==> (#[trigger] r@[i]).expires_at > now,
    {
        let cutoff: i128 = now as i128 - (q.max_age_minutes as i128) * (MICROS_PER_MINUTE as i128);
        let ghost rows = self.rows@;
        let ghost pred = matcher(*q, now as int);
        let cap: usize = (q.limit + 1) as usize;
        let mut out: Vec<SpotRow> = Vec::new();
        let n = self.rows.len();
        let mut i: usize = 0;
        while i < n && out.len() < cap
            invariant
                n == rows.len(),
                pred == matcher(*q, now as int),
                self.rows@ == rows,
                cap == q.limit + 1,
                cutoff == now - q.max_age_minutes * MICROS_PER_MINUTE,
                0 <= i <= n,
                out@ == rows.take(i as int).filter(pred),
                out@.len() <= cap,
            decreases n - i,
        {
            proof {
                assert(rows.take(i as int + 1) =~= rows.take(i as int).push(rows[i as int]));
                rows.take(i as int).lemma_filter_push(rows[i as int], pred);
                assert(pred(rows[i as int]) == spot_matches(*q, now as int, rows[i as int]));
            }
            if Self::row_matches(q, now, cutoff, &self.rows[i]) {
                out.push(self.rows[i].duplicate());
            }
            i = i + 1;
        }
        proof {
            let m = rows.filter(pred);
            assert(rows =~= rows.take(i as int) + rows.skip(i as int));
            Seq::filter_distributes_over_add(rows.take(i as int), rows.skip(i as int), pred);
            if i == n {
                assert(rows.take(i as int) =~= rows);
            } else {
                assert(m.take(q.limit + 1) =~= out@);
            }
            assert forall|k: int| 0 <= k < out@.len() implies (#[trigger] out@[k]).expires_at > now by {
                rows.lemma_filter_pred(pred, k);
                assert(out@[k] == m[k]);
            }
        }
        out
    }
}

} // verus!
