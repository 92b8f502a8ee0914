//! Beacon-network feed: frequency in kilohertz, event time with an offset,
//! signal telemetry, and no liveness window of its own.
use vstd::prelude::*;
use crate::freq::{parse_decimal_scaled, scaled_decimal};
use crate::normalize::{
    add_window, count_where, deadline, ids_kept, ingest_batch, is_err_at, key_stored, lemma_count_where_same, storable,
    IngestReport, NormalizeError,
};
use crate::spot::{copy_opt, AggregatedSpot, SpotSource};
use crate::store::{has_key, SpotStore};
use crate::text::{int_text, int_to_text};
use crate::time::{parse_rfc3339, rfc3339_micros};

verus! {

/// How long a spot stays active after its event time: ten minutes.
pub const WINDOW: i64 = 600_000_000;

/// One record of the feed.
#[derive(Debug)]
pub struct RbnSpot {
    pub id: i64,
    pub callsign: String,
    /// Kilohertz, as the decimal numeral the feed sent.
    pub frequency: String,
    pub mode: String,
    /// RFC 3339, with an offset.
    pub timestamp: String,
    pub snr: Option<i16>,
    pub spotter: Option<String>,
    pub speed: Option<i16>,
}

/// Frequency in hertz, event time and deadline of a record, or why it cannot be read.
pub open spec fn parsed(s: RbnSpot) -> Result<(u64, i64, i64), NormalizeError> {
    match scaled_decimal(s.frequency@, 3) {
        None => Err(NormalizeError::BadFrequency),
        Some(f) => match rfc3339_micros(s.timestamp@) {
            None => Err(NormalizeError::BadTimestamp),
            Some(t) => match deadline(t, WINDOW as int) {
                None => Err(NormalizeError::TimeOutOfRange),
                Some(e) => Ok((f, t, e)),
            },
        },
    }
}

/// The fields of `a` that are taken from the record.
pub open spec fn carried(s: RbnSpot, a: AggregatedSpot) -> bool {
    &&& a.callsign == s.callsign
    &&& a.program_slug is None
    &&& a.source == SpotSource::Rbn
    &&& a.external_id@ == int_text(s.id as int)
    &&& a.mode == s.mode
    &&& a.reference is None
    &&& a.reference_name is None
    &&& a.spotter == s.spotter
    &&& a.spotter_grid is None
    &&& a.location_desc is None
    &&& a.country_code is None
    &&& a.state_abbr is None
    &&& a.comments is None
    &&& a.snr == s.snr
    &&& a.wpm == s.speed
}

pub open spec fn mapped(s: RbnSpot, r: Result<AggregatedSpot, NormalizeError>) -> bool {
    match parsed(s) {
        Err(e) => r == Err::<AggregatedSpot, NormalizeError>(e),
        Ok((f, t, e)) => r matches Ok(a) && a.frequency_hz == f && a.spotted_at == t && a.expires_at == e
            && carried(s, a),
    }
}

/// The canonical spot of one record: the deadline is ten minutes after the event time.
pub fn map_spot(spot: &RbnSpot) -> (r: Result<AggregatedSpot, NormalizeError>)
    ensures
        mapped(*spot, r),
        storable(r),
{
    let frequency_hz = match parse_decimal_scaled(spot.frequency.as_str(), 3) {
        Some(f) => f,
        None => return Err(NormalizeError::BadFrequency),
    };
    let spotted_at = match parse_rfc3339(spot.timestamp.as_str()) {
        Some(t) => t,
        None => return Err(NormalizeError::BadTimestamp),
    };
    let expires_at = match add_window(spotted_at, WINDOW as i128) {
        Some(e) => e,
        None => return Err(NormalizeError::TimeOutOfRange),
    };
    Ok(AggregatedSpot {
        callsign: spot.callsign.clone(),
        program_slug: None,
        source: SpotSource::Rbn,
        external_id: int_to_text(spot.id),
        frequency_hz,
        mode: spot.mode.clone(),
        reference: None,
        reference_name: None,
        spotter: copy_opt(&spot.spotter),
        spotter_grid: None,
        location_desc: None,
        country_code: None,
        state_abbr: None,
        comments: None,
        snr: spot.snr,
        wpm: spot.speed,
        spotted_at,
        expires_at,
    })
}

/// Normalizes every record of a batch, in order.
pub fn map_batch(spots: &Vec<RbnSpot>) -> (r: Vec<Result<AggregatedSpot, NormalizeError>>)
    ensures
        r@.len() == spots@.len(),
        forall|i: int| 0 <= i < spots@.len() ==> mapped(#[trigger] spots@[i], r@[i]),
        forall|i: int| 0 <= i < r@.len() ==> storable(#[trigger] r@[i]),
{
    let mut out: Vec<Result<AggregatedSpot, NormalizeError>> = Vec::new();
    let mut i: usize = 0;
    while i < spots.len()
        invariant
            0 <= i <= spots@.len(),
            out@.len() == i,
            forall|k: int| 0 <= k < i ==> mapped(#[trigger] spots@[k], out@[k]),
            forall|k: int| 0 <= k < i ==> storable(#[trigger] out@[k]),
        decreases spots@.len() - i,
    {
        out.push(map_spot(&spots[i]));
        i = i + 1;
    }
    out
}

pub open spec fn fails_at(spots: Seq<RbnSpot>) -> spec_fn(int) -> bool {
    |i: int| parsed(spots[i]) is Err
}

/// Normalizes a fetched batch and stores every record that normalized. The
/// records that failed are counted and skipped; they never stop the others.
pub fn ingest(store: &mut SpotStore, spots: &Vec<RbnSpot>, now: i64) -> (r: IngestReport)
    requires
        old(store).wf(),
    ensures
        final(store).wf(),
        r.fetched == spots@.len(),
        r.parse_failed == count_where(spots@.len(), fails_at(spots@)),
        r.upserted + r.parse_failed + r.store_failed == spots@.len(),
        old(store)@.len() <= final(store)@.len() <= old(store)@.len() + r.upserted,
        ids_kept(old(store)@, final(store)@),
        old(store).next_id() + spots@.len() <= u64::MAX ==> r.store_failed == 0,
        old(store).next_id() + spots@.len() <= u64::MAX ==> forall|i: int|
            0 <= i < spots@.len() && (#[trigger] parsed(spots@[i])) is Ok ==> exists|j: int|
                0 <= j < final(store)@.len() && has_key(
                    #[trigger] final(store)@[j],
                    SpotSource::Rbn,
                    int_text(spots@[i].id as int),
                ),
{
    let ghost start = store.next_id();
    let batch = map_batch(spots);
    let r = ingest_batch(store, &batch, now);
    proof {
        assert forall|i: int| 0 <= i < spots@.len() implies #[trigger] is_err_at(batch@)(i) == fails_at(spots@)(i) by {
            assert(mapped(spots@[i], batch@[i]));
        }
        lemma_count_where_same(spots@.len(), is_err_at(batch@), fails_at(spots@));
        if start + spots@.len() <= u64::MAX {
            assert forall|i: int| 0 <= i < spots@.len() && (#[trigger] parsed(spots@[i])) is Ok implies key_stored(
                store@,
                batch@[i]->Ok_0,
            ) by {
                assert(mapped(spots@[i], batch@[i]));
                assert(batch@[i] is Ok);
            }
        }
    }
    r
}

} // verus!
