//! Summit-activation feed: frequency as megahertz text, event time as UTC text
//! without an offset, and a record whose own callsign is the spotter's.
use vstd::prelude::*;
use crate::freq::{parse_decimal_scaled, scaled_decimal};
use crate::normalize::{
    add_window, count_where, deadline, ids_kept, ingest_batch, is_err_at, key_stored, lemma_count_where_same, storable,
    IngestReport, NormalizeError,
};
use crate::spot::{copy_opt, opt_view, AggregatedSpot, SpotSource};
use crate::store::{has_key, SpotStore};
use crate::text::{int_text, int_to_text};
use crate::time::{naive_utc_micros, parse_naive_utc};

verus! {

/// How long a spot stays active after its event time: thirty minutes.
pub const WINDOW: i64 = 1_800_000_000;

/// One record of the feed.
#[derive(Debug)]
pub struct SotaSpot {
    pub id: i64,
    /// The spotter's callsign, not the activator's.
    pub callsign: String,
    pub activator_callsign: String,
    /// Megahertz.
    pub frequency: String,
    pub mode: String,
    pub association_code: String,
    pub summit_code: String,
    pub summit_details: Option<String>,
    /// UTC, without an offset.
    pub time_stamp: String,
    pub comments: Option<String>,
}

/// Frequency in hertz, event time and deadline of a record, or why it cannot be read.
pub open spec fn parsed(s: SotaSpot) -> Result<(u64, i64, i64), NormalizeError> {
    match scaled_decimal(s.frequency@, 6) {
        None => Err(NormalizeError::BadFrequency),
        Some(f) => match naive_utc_micros(s.time_stamp@) {
            None => Err(NormalizeError::BadTimestamp),
            Some(t) => match deadline(t, WINDOW as int) {
                None => Err(NormalizeError::TimeOutOfRange),
                Some(e) => Ok((f, t, e)),
            },
        },
    }
}

/// The summit reference: association code and summit code joined by '/'.
pub open spec fn summit_reference(s: SotaSpot) -> Seq<char> {
    s.association_code@ + "/"@ + s.summit_code@
}

/// The fields of `a` that are taken from the record.
pub open spec fn carried(s: SotaSpot, a: AggregatedSpot) -> bool {
    &&& a.callsign == s.activator_callsign
    &&& opt_view(a.program_slug) == Some("sota"@)
    &&& a.source == SpotSource::Sota
    &&& a.external_id@ == int_text(s.id as int)
    &&& a.mode == s.mode
    &&& opt_view(a.reference) == Some(summit_reference(s))
    &&& a.reference_name == s.summit_details
    &&& a.spotter == Some(s.callsign)
    &&& a.spotter_grid is None
    &&& a.location_desc is None
    &&& a.country_code is None
    &&& a.state_abbr is None
    &&& a.comments == s.comments
    &&& a.snr is None
    &&& a.wpm is None
}

pub open spec fn mapped(s: SotaSpot, r: Result<AggregatedSpot, NormalizeError>) -> bool {
    match parsed(s) {
        Err(e) => r == Err::<AggregatedSpot, NormalizeError>(e),
        Ok((f, t, e)) => r matches Ok(a) && a.frequency_hz == f && a.spotted_at == t && a.expires_at == e
            && carried(s, a),
    }
}

/// The canonical spot of one record. The frequency is megahertz text, the
/// event time is read as UTC and the deadline is thirty minutes after it. The
/// activator is the spot's callsign; the record's own callsign is the spotter.
pub fn map_spot(spot: &SotaSpot) -> (r: Result<AggregatedSpot, NormalizeError>)
    ensures
        mapped(*spot, r),
        storable(r),
{
    let frequency_hz = match parse_decimal_scaled(spot.frequency.as_str(), 6) {
        Some(f) => f,
        None => return Err(NormalizeError::BadFrequency),
    };
    let spotted_at = match parse_naive_utc(spot.time_stamp.as_str()) {
        Some(t) => t,
        None => return Err(NormalizeError::BadTimestamp),
    };
    let expires_at = match add_window(spotted_at, WINDOW as i128) {
        Some(e) => e,
        None => return Err(NormalizeError::TimeOutOfRange),
    };
    let mut reference = spot.association_code.clone();
    reference.append("/");
    reference.append(spot.summit_code.as_str());
    proof {
        reveal_strlit("sota");
    }
    Ok(AggregatedSpot {
        callsign: spot.activator_callsign.clone(),
        program_slug: Some("sota".to_owned()),
        source: SpotSource::Sota,
        external_id: int_to_text(spot.id),
        frequency_hz,
        mode: spot.mode.clone(),
        reference: Some(reference),
        reference_name: copy_opt(&spot.summit_details),
        spotter: Some(spot.callsign.clone()),
        spotter_grid: None,
        location_desc: None,
        country_code: None,
        state_abbr: None,
        comments: copy_opt(&spot.comments),
        snr: None,
        wpm: None,
        spotted_at,
        expires_at,
    })
}

/// Normalizes every record of a batch, in order.
pub fn map_batch(spots: &Vec<SotaSpot>) -> (r: Vec<Result<AggregatedSpot, NormalizeError>>)
    ensures
        r@.len() == spots@.len(),
        forall|i: int| 0 <= i < spots@.len() ==> mapped(#[trigger] spots@[i], r@[i]),
        forall|i: int| 0 <= i < r@.len() ==> storable(#[trigger] r@[i]),
{
    let mut out: Vec<Result<AggregatedSpot, NormalizeError>> = Vec::new();
    let mut i: usize = 0;
    while i < spots.len()
        invariant
            0 <= i <= spots@.len(),
            out@.len() == i,
            forall|k: int| 0 <= k < i ==> mapped(#[trigger] spots@[k], out@[k]),
            forall|k: int| 0 <= k < i ==> storable(#[trigger] out@[k]),
        decreases spots@.len() - i,
    {
        out.push(map_spot(&spots[i]));
        i = i + 1;
    }
    out
}

pub open spec fn fails_at(spots: Seq<SotaSpot>) -> spec_fn(int) -> bool {
    |i: int| parsed(spots[i]) is Err
}

/// Normalizes a fetched batch and stores every record that normalized. The
/// records that failed are counted and skipped; they never stop the others.
pub fn ingest(store: &mut SpotStore, spots: &Vec<SotaSpot>, now: i64) -> (r: IngestReport)
    requires
        old(store).wf(),
    ensures
        final(store).wf(),
        r.fetched == spots@.len(),
        r.parse_failed == count_where(spots@.len(), fails_at(spots@)),
        r.upserted + r.parse_failed + r.store_failed == spots@.len(),
        old(store)@.len() <= final(store)@.len() <= old(store)@.len() + r.upserted,
        ids_kept(old(store)@, final(store)@),
        old(store).next_id() + spots@.len() <= u64::MAX ==> r.store_failed == 0,
        old(store).next_id() + spots@.len() <= u64::MAX ==> forall|i: int|
            0 <= i < spots@.len() && (#[trigger] parsed(spots@[i])) is Ok ==> exists|j: int|
                0 <= j < final(store)@.len() && has_key(
                    #[trigger] final(store)@[j],
                    SpotSource::Sota,
                    int_text(spots@[i].id as int),
                ),
{
    let ghost start = store.next_id();
    let batch = map_batch(spots);
    let r = ingest_batch(store, &batch, now);
    proof {
        assert forall|i: int| 0 <= i < spots@.len() implies #[trigger] is_err_at(batch@)(i) == fails_at(spots@)(i) by {
            assert(mapped(spots@[i], batch@[i]));
        }
        lemma_count_where_same(spots@.len(), is_err_at(batch@), fails_at(spots@));
        if start + spots@.len() <= u64::MAX {
            assert forall|i: int| 0 <= i < spots@.len() && (#[trigger] parsed(spots@[i])) is Ok implies key_stored(
                store@,
                batch@[i]->Ok_0,
            ) by {
                assert(mapped(spots@[i], batch@[i]));
                assert(batch@[i] is Ok);
            }
        }
    }
    r
}

} // verus!
