//! The canonical spot record and the shapes it travels in.
use vstd::prelude::*;

verus! {

/// Which feed a spot came from.
#[derive(Debug, Clone, Copy, PartialEq, Eq, Structural)]
pub enum SpotSource {
    Pota,
    Rbn,
    Sota,
    SelfSpot,
    Other,
}

impl SpotSource {
    /// The tag a spot of this source carries in responses.
    pub fn tag(&self) -> (r: &'static str)
        ensures
            r@ == source_tag(*self),
    {
        match self {
            SpotSource::Pota => "pota",
            SpotSource::Rbn => "rbn",
            SpotSource::Sota => "sota",
            SpotSource::SelfSpot => "self",
            SpotSource::Other => "other",
        }
    }
}

pub open spec fn source_tag(s: SpotSource) -> Seq<char> {
    match s {
        SpotSource::Pota => "pota"@,
        SpotSource::Rbn => "rbn"@,
        SpotSource::Sota => "sota"@,
        SpotSource::SelfSpot => "self"@,
        SpotSource::Other => "other"@,
    }
}

pub open spec fn opt_view(o: Option<String>) -> Option<Seq<char>> {
    match o {
        Some(s) => Some(s@),
        None => None,
    }
}

/// An equal copy of an optional string.
pub fn copy_opt(o: &Option<String>) -> (r: Option<String>)
    ensures
        r == *o,
{
    match o {
        Some(s) => Some(s.clone()),
        None => None,
    }
}

/// A stored spot. Times are microseconds since the Unix epoch, UTC;
/// frequencies are in hertz.
#[derive(Debug)]
pub struct SpotRow {
    pub id: u64,
    pub callsign: String,
    pub program_slug: Option<String>,
    pub source: SpotSource,
    pub external_id: Option<String>,
    pub frequency_hz: u64,
    pub mode: String,
    pub reference: Option<String>,
    pub reference_name: Option<String>,
    pub spotter: Option<String>,
    pub spotter_grid: Option<String>,
    pub location_desc: Option<String>,
    pub country_code: Option<String>,
    pub state_abbr: Option<String>,
    pub comments: Option<String>,
    pub snr: Option<i16>,
    pub wpm: Option<i16>,
    pub submitted_by: Option<u128>,
    pub spotted_at: i64,
    pub expires_at: i64,
    pub created_at: i64,
    pub updated_at: i64,
}

impl SpotRow {
    /// Active rows are those whose deadline lies after `now`.
    pub open spec fn is_active(&self, now: int) -> bool {
        self.expires_at > now
    }

    /// A field-by-field copy.
    pub fn duplicate(&self) -> (r: SpotRow)
        ensures
            r == *self,
    {
        SpotRow {
            id: self.id,
            callsign: self.callsign.clone(),
            program_slug: copy_opt(&self.program_slug),
            source: self.source,
            external_id: copy_opt(&self.external_id),
            frequency_hz: self.frequency_hz,
            mode: self.mode.clone(),
            reference: copy_opt(&self.reference),
            reference_name: copy_opt(&self.reference_name),
            spotter: copy_opt(&self.spotter),
            spotter_grid: copy_opt(&self.spotter_grid),
            location_desc: copy_opt(&self.location_desc),
            country_code: copy_opt(&self.country_code),
            state_abbr: copy_opt(&self.state_abbr),
            comments: copy_opt(&self.comments),
            snr: self.snr,
            wpm: self.wpm,
            submitted_by: self.submitted_by,
            spotted_at: self.spotted_at,
            expires_at: self.expires_at,
            created_at: self.created_at,
            updated_at: self.updated_at,
        }
    }
}

/// A spot read from an upstream feed, before it is stored.
#[derive(Debug)]
pub struct AggregatedSpot {
    pub callsign: String,
    pub program_slug: Option<String>,
    pub source: SpotSource,
    pub external_id: String,
    pub frequency_hz: u64,
    pub mode: String,
    pub reference: Option<String>,
    pub reference_name: Option<String>,
    pub spotter: Option<String>,
    pub spotter_grid: Option<String>,
    pub location_desc: Option<String>,
    pub country_code: Option<String>,
    pub state_abbr: Option<String>,
    pub comments: Option<String>,
    pub snr: Option<i16>,
    pub wpm: Option<i16>,
    pub spotted_at: i64,
    pub expires_at: i64,
}

impl AggregatedSpot {
    /// A spot's deadline lies after the moment it was seen.
    pub open spec fn wf(&self) -> bool {
        self.spotted_at < self.expires_at
    }
}

/// What a client sees of a spot.
#[derive(Debug)]
pub struct SpotResponse {
    pub id: u64,
    pub callsign: String,
    pub program_slug: Option<String>,
    pub source: SpotSource,
    pub frequency_hz: u64,
    pub mode: String,
    pub reference: Option<String>,
    pub reference_name: Option<String>,
    pub spotter: Option<String>,
    pub spotter_grid: Option<String>,
    pub location_desc: Option<String>,
    pub country_code: Option<String>,
    pub state_abbr: Option<String>,
    pub comments: Option<String>,
    pub snr: Option<i16>,
    pub wpm: Option<i16>,
    pub spotted_at: i64,
    pub expires_at: i64,
}

pub open spec fn response_of(row: SpotRow) -> SpotResponse {
    SpotResponse {
        id: row.id,
        callsign: row.callsign,
        program_slug: row.program_slug,
        source: row.source,
        frequency_hz: row.frequency_hz,
        mode: row.mode,
        reference: row.reference,
        reference_name: row.reference_name,
        spotter: row.spotter,
        spotter_grid: row.spotter_grid,
        location_desc: row.location_desc,
        country_code: row.country_code,
        state_abbr: row.state_abbr,
        comments: row.comments,
        snr: row.snr,
        wpm: row.wpm,
        spotted_at: row.spotted_at,
        expires_at: row.expires_at,
    }
}

impl From<SpotRow> for SpotResponse {
    fn from(row: SpotRow) -> (r: SpotResponse) {
        SpotResponse {
            id: row.id,
            callsign: row.callsign,
            program_slug: row.program_slug,
            source: row.source,
            frequency_hz: row.frequency_hz,
            mode: row.mode,
            reference: row.reference,
            reference_name: row.reference_name,
            spotter: row.spotter,
            spotter_grid: row.spotter_grid,
            location_desc: row.location_desc,
            country_code: row.country_code,
            state_abbr: row.state_abbr,
            comments: row.comments,
            snr: row.snr,
            wpm: row.wpm,
            spotted_at: row.spotted_at,
            expires_at: row.expires_at,
        }
    }
}

impl vstd::std_specs::convert::FromSpecImpl<SpotRow> for SpotResponse {
    open spec fn obeys_from_spec() -> bool {
        true
    }

    open spec fn from_spec(row: SpotRow) -> SpotResponse {
        response_of(row)
    }
}

} // verus!
