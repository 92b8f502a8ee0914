//! Park-activation feed: frequency as kilohertz text, event time as UTC text
//! without an offset, and a remaining-seconds liveness window.
use vstd::prelude::*;
use crate::freq::{parse_decimal_scaled, scaled_decimal};
use crate::normalize::{
    add_window, count_where, deadline, ids_kept, ingest_batch, is_err_at, key_stored, lemma_count_where_same, storable,
    IngestReport, NormalizeError,
};
use crate::spot::{copy_opt, opt_view, AggregatedSpot, SpotSource};
use crate::store::{has_key, SpotStore};
use crate::text::{int_text, int_to_text, split_first, split_once};
use crate::time::{naive_utc_micros, parse_naive_utc};

verus! {

/// The window used when a record gives none: thirty minutes.
pub const DEFAULT_WINDOW: i64 = 1_800_000_000;

/// One record of the feed.
#[derive(Debug)]
pub struct PotaSpot {
    pub spot_id: i64,
    pub activator: String,
    pub frequency: String,
    pub mode: String,
    pub reference: String,
    pub park_name: Option<String>,
    pub spot_time: String,
    pub spotter: Option<String>,
    pub comments: Option<String>,
    pub location_desc: Option<String>,
    /// Seconds until the spot expires.
    pub expire: Option<i64>,
}

/// The liveness window of a record, in microseconds: the remaining seconds it
/// gives, or thirty minutes when they are absent or not positive.
pub open spec fn window(expire: Option<i64>) -> int {
    match expire {
        Some(secs) => if secs > 0 { secs * 1_000_000 } else { DEFAULT_WINDOW as int },
        None => DEFAULT_WINDOW as int,
    }
}

/// Frequency in hertz, event time and deadline of a record, or why it cannot be read.
pub open spec fn parsed(s: PotaSpot) -> Result<(u64, i64, i64), NormalizeError> {
    match scaled_decimal(s.frequency@, 3) {
        None => Err(NormalizeError::BadFrequency),
        Some(f) => match naive_utc_micros(s.spot_time@) {
            None => Err(NormalizeError::BadTimestamp),
            Some(t) => match deadline(t, window(s.expire)) {
                None => Err(NormalizeError::TimeOutOfRange),
                Some(e) => Ok((f, t, e)),
            },
        },
    }
}

/// The fields of `a` that are taken from the record as they are.
pub open spec fn carried(s: PotaSpot, a: AggregatedSpot) -> bool {
    &&& a.callsign == s.activator
    &&& opt_view(a.program_slug) == Some("pota"@)
    &&& a.source == SpotSource::Pota
    &&& a.external_id@ == int_text(s.spot_id as int)
    &&& a.mode == s.mode
    &&& a.reference == Some(s.reference)
    &&& a.reference_name == s.park_name
    &&& a.spotter == s.spotter
    &&& a.spotter_grid is None
    &&& a.location_desc == s.location_desc
    &&& match s.location_desc {
        Some(d) => opt_view(a.country_code) == Some(split_once(d@, '-').0) && opt_view(a.state_abbr)
            == split_once(d@, '-').1,
        None => a.country_code is None && a.state_abbr is None,
    }
    &&& a.comments == s.comments
    &&& a.snr is None
    &&& a.wpm is None
}

pub open spec fn mapped(s: PotaSpot, r: Result<AggregatedSpot, NormalizeError>) -> bool {
    match parsed(s) {
        Err(e) => r == Err::<AggregatedSpot, NormalizeError>(e),
        Ok((f, t, e)) => r matches Ok(a) && a.frequency_hz == f && a.spotted_at == t && a.expires_at == e
            && carried(s, a),
    }
}

/// The canonical spot of one record. The frequency is kilohertz text, the
/// event time is read as UTC, the deadline is the event time plus the record's
/// window, and the location `CC-SS` gives country and subdivision codes.
pub fn map_spot(spot: &PotaSpot) -> (r: Result<AggregatedSpot, NormalizeError>)
    ensures
        mapped(*spot, r),
        storable(r),
{
    let frequency_hz = match parse_decimal_scaled(spot.frequency.as_str(), 3) {
        Some(f) => f,
        None => return Err(NormalizeError::BadFrequency),
    };
    let spotted_at = match parse_naive_utc(spot.spot_time.as_str()) {
        Some(t) => t,
        None => return Err(NormalizeError::BadTimestamp),
    };
    let window: i128 = match spot.expire {
        Some(secs) => if secs > 0 { secs as i128 * 1_000_000 } else { DEFAULT_WINDOW as i128 },
        None => DEFAULT_WINDOW as i128,
    };
    let expires_at = match add_window(spotted_at, window) {
        Some(e) => e,
        None => return Err(NormalizeError::TimeOutOfRange),
    };
    let (country_code, state_abbr) = match &spot.location_desc {
        Some(desc) => {
            let (country, state) = split_first(desc.as_str(), '-');
            (Some(country), state)
        },
        None => (None, None),
    };
    proof {
        reveal_strlit("pota");
    }
    Ok(AggregatedSpot {
        callsign: spot.activator.clone(),
        program_slug: Some("pota".to_owned()),
        source: SpotSource::Pota,
        external_id: int_to_text(spot.spot_id),
        frequency_hz,
        mode: spot.mode.clone(),
        reference: Some(spot.reference.clone()),
        reference_name: copy_opt(&spot.park_name),
        spotter: copy_opt(&spot.spotter),
        spotter_grid: None,
        location_desc: copy_opt(&spot.location_desc),
        country_code,
        state_abbr,
        comments: copy_opt(&spot.comments),
        snr: None,
        wpm: None,
        spotted_at,
        expires_at,
    })
}

/// Normalizes every record of a batch, in order.
pub fn map_batch(spots: &Vec<PotaSpot>) -> (r: Vec<Result<AggregatedSpot, NormalizeError>>)
    ensures
        r@.len() == spots@.len(),
        forall|i: int| 0 <= i < spots@.len() ==> mapped(#[trigger] spots@[i], r@[i]),
        forall|i: int| 0 <= i < r@.len() ==> storable(#[trigger] r@[i]),
{
    let mut out: Vec<Result<AggregatedSpot, NormalizeError>> = Vec::new();
    let mut i: usize = 0;
    while i < spots.len()
        invariant
            0 <= i <= spots@.len(),
            out@.len() == i,
            forall|k: int| 0 <= k < i ==> mapped(#[trigger] spots@[k], out@[k]),
            forall|k: int| 0 <= k < i ==> storable(#[trigger] out@[k]),
        decreases spots@.len() - i,
    {
        out.push(map_spot(&spots[i]));
        i = i + 1;
    }
    out
}

pub open spec fn fails_at(spots: Seq<PotaSpot>) -> spec_fn(int) -> bool {
    |i: int| parsed(spots[i]) is Err
}

/// Normalizes a fetched batch and stores every record that normalized. The
/// records that failed are counted and skipped; they never stop the others.
pub fn ingest(store: &mut SpotStore, spots: &Vec<PotaSpot>, now: i64) -> (r: IngestReport)
    requires
        old(store).wf(),
    ensures
        final(store).wf(),
        r.fetched == spots@.len(),
        r.parse_failed == count_where(spots@.len(), fails_at(spots@)),
        r.upserted + r.parse_failed + r.store_failed == spots@.len(),
        old(store)@.len() <= final(store)@.len() <= old(store)@.len() + r.upserted,
        ids_kept(old(store)@, final(store)@),
        old(store).next_id() + spots@.len() <= u64::MAX ==> r.store_failed == 0,
        old(store).next_id() + spots@.len() <= u64::MAX ==> forall|i: int|
            0 <= i < spots@.len() && (#[trigger] parsed(spots@[i])) is Ok ==> exists|j: int|
                0 <= j < final(store)@.len() && has_key(
                    #[trigger] final(store)@[j],
                    SpotSource::Pota,
                    int_text(spots@[i].spot_id as int),
                ),
{
    let ghost start = store.next_id();
    let batch = map_batch(spots);
    let r = ingest_batch(store, &batch, now);
    proof {
        assert forall|i: int| 0 <= i < spots@.len() implies #[trigger] is_err_at(batch@)(i) == fails_at(spots@)(i) by {
            assert(mapped(spots@[i], batch@[i]));
        }
        lemma_count_where_same(spots@.len(), is_err_at(batch@), fails_at(spots@));
        if start + spots@.len() <= u64::MAX {
            assert forall|i: int| 0 <= i < spots@.len() && (#[trigger] parsed(spots@[i])) is Ok implies key_stored(
                store@,
                batch@[i]->Ok_0,
            ) by {
                assert(mapped(spots@[i], batch@[i]));
                assert(batch@[i] is Ok);
            }
        }
    }
    r
}

} // verus!
