//! Listing requests: defaults and bounds, cursor pages, and the response shape.
use vstd::prelude::*;
use crate::spot::{copy_opt, opt_view, response_of, SpotResponse, SpotRow, SpotSource};
use crate::store::{matcher, ListSpotsParams, SpotStore, MAX_LIMIT};
use crate::time::{format_rfc3339, parse_rfc3339, rfc3339_micros, rfc3339_text};

verus! {

pub const DEFAULT_LIMIT: i64 = 100;

pub const DEFAULT_MAX_AGE_MINUTES: i64 = 30;

pub const MAX_AGE_MINUTES: i64 = 1440;

/// A client's listing request, as it arrives.
#[derive(Debug)]
pub struct SpotsQuery {
    pub program: Option<String>,
    pub callsign: Option<String>,
    pub source: Option<SpotSource>,
    pub mode: Option<String>,
    pub state: Option<String>,
    pub max_age_minutes: Option<i64>,
    pub limit: Option<i64>,
    /// RFC 3339 text of the last event time already seen.
    pub cursor: Option<String>,
}

/// Paging facts returned with a listing.
#[derive(Debug)]
pub struct SpotsPagination {
    pub has_more: bool,
    pub next_cursor: Option<String>,
}

/// A listing as a client sees it.
#[derive(Debug)]
pub struct SpotsListResponse {
    pub spots: Vec<SpotResponse>,
    pub pagination: SpotsPagination,
}

pub open spec fn clamp(v: int, lo: int, hi: int) -> int {
    if v < lo {
        lo
    } else if v > hi {
        hi
    } else {
        v
    }
}

pub open spec fn limit_of(limit: Option<i64>) -> i64 {
    clamp(
        match limit {
            Some(l) => l as int,
            None => DEFAULT_LIMIT as int,
        },
        1,
        MAX_LIMIT as int,
    ) as i64
}

pub open spec fn max_age_of(max_age: Option<i64>) -> i64 {
    clamp(
        match max_age {
            Some(m) => m as int,
            None => DEFAULT_MAX_AGE_MINUTES as int,
        },
        1,
        MAX_AGE_MINUTES as int,
    ) as i64
}

/// The instant a cursor names; a cursor that cannot be read counts as none.
pub open spec fn cursor_of(cursor: Option<String>) -> Option<i64> {
    match cursor {
        Some(c) => rfc3339_micros(c@),
        None => None,
    }
}

/// The store query a request asks for.
pub open spec fn params_of(q: SpotsQuery) -> ListSpotsParams {
    ListSpotsParams {
        program: q.program,
        callsign: q.callsign,
        source: q.source,
        mode: q.mode,
        state: q.state,
        max_age_minutes: max_age_of(q.max_age_minutes),
        limit: limit_of(q.limit),
        cursor: cursor_of(q.cursor),
    }
}

fn clamp_i64(v: i64, lo: i64, hi: i64) -> (r: i64)
    requires
        lo <= hi,
    ensures
        r == clamp(v as int, lo as int, hi as int),
{
    if v < lo {
        lo
    } else if v > hi {
        hi
    } else {
        v
    }
}

/// The store query for a request: page size 100 unless given, kept within
/// 1 ..= 250; age 30 minutes unless given, kept within 1 ..= 1440; a cursor
/// that is not RFC 3339 text is ignored.
pub fn to_params(q: &SpotsQuery) -> (r: ListSpotsParams)
    ensures
        r == params_of(*q),
{
    let limit = clamp_i64(
        match q.limit {
            Some(l) => l,
            None => DEFAULT_LIMIT,
        },
        1,
        MAX_LIMIT,
    );
    let max_age_minutes = clamp_i64(
        match q.max_age_minutes {
            Some(m) => m,
            None => DEFAULT_MAX_AGE_MINUTES,
        },
        1,
        MAX_AGE_MINUTES,
    );
    let cursor = match &q.cursor {
        Some(c) => parse_rfc3339(c.as_str()),
        None => None,
    };
    ListSpotsParams {
        program: copy_opt(&q.program),
        callsign: copy_opt(&q.callsign),
        source: q.source,
        mode: copy_opt(&q.mode),
        state: copy_opt(&q.state),
        max_age_minutes,
        limit,
        cursor,
    }
}

/// One page of a listing, with the instant to continue from.
pub struct Page {
    pub rows: Vec<SpotRow>,
    pub has_more: bool,
    pub next_cursor: Option<i64>,
}

/// The rows of the page: the first `limit` matching rows, newest first.
pub open spec fn page_rows(rows: Seq<SpotRow>, q: ListSpotsParams, now: int) -> Seq<SpotRow> {
    let m = rows.filter(matcher(q, now));
    if m.len() <= q.limit {
        m
    } else {
        m.take(q.limit as int)
    }
}

/// More matching rows exist than the page holds.
pub open spec fn page_has_more(rows: Seq<SpotRow>, q: ListSpotsParams, now: int) -> bool {
    rows.filter(matcher(q, now)).len() > q.limit
}

/// Where the next page starts: the event time of this page's last row, when more rows exist.
pub open spec fn page_cursor(rows: Seq<SpotRow>, q: ListSpotsParams, now: int) -> Option<i64> {
    if page_has_more(rows, q, now) {
        Some(page_rows(rows, q, now).last().spotted_at)
    } else {
        None
    }
}

/// One page: asks the store for one row more than the page holds, to learn
/// whether more exist, and keeps `limit` rows.
pub fn next_page(store: &SpotStore, q: &ListSpotsParams, now: i64) -> (r: Page)
    requires
        store.wf(),
        1 <= q.limit <= MAX_LIMIT,
    ensures
        r.rows@ == page_rows(store@, *q, now as int),
        forall|i: int| 0 <= i < r.rows@.len() ==> (#[trigger] r.rows@[i]).expires_at > now,
        r.has_more == page_has_more(store@, *q, now as int),
        r.next_cursor == page_cursor(store@, *q, now as int),
{
    let mut rows = store.list_spots(q, now);
    let ghost full = rows@;
    let ghost m = store@.filter(matcher(*q, now as int));
    let limit = q.limit as usize;
    let has_more = rows.len() > limit;
    rows.truncate(limit);
    proof {
        if m.len() > q.limit {
            assert(rows@ =~= m.take(q.limit as int));
        }
        assert forall|i: int| 0 <= i < rows@.len() implies (#[trigger] rows@[i]).expires_at > now by {
            assert(rows@[i] == full[i]);
        }
    }
    let next_cursor = if has_more {
        Some(rows[rows.len() - 1].spotted_at)
    } else {
        None
    };
    Page { rows, has_more, next_cursor }
}

/// The responses of a run of rows, in order.
pub fn responses(rows: &Vec<SpotRow>) -> (r: Vec<SpotResponse>)
    ensures
        r@.len() == rows@.len(),
        forall|i: int| 0 <= i < rows@.len() ==> r@[i] == response_of(#[trigger] rows@[i]),
{
    let mut out: Vec<SpotResponse> = Vec::new();
    let mut i: usize = 0;
    while i < rows.len()
        invariant
            0 <= i <= rows@.len(),
            out@.len() == i,
            forall|k: int| 0 <= k < i ==> out@[k] == response_of(#[trigger] rows@[k]),
        decreases rows@.len() - i,
    {
        out.push(SpotResponse::from(rows[i].duplicate()));
        i = i + 1;
    }
    out
}

/// The listing a request asks for at `now`: active rows within the age bound
/// that match every filter given, newest first, one page of them, and the
/// RFC 3339 cursor of the page's last event time when more rows exist.
pub fn list_spots(store: &SpotStore, query: &SpotsQuery, now: i64) -> (r: SpotsListResponse)
    requires
        store.wf(),
    ensures
        ({
            let q = params_of(*query);
            let rows = page_rows(store@, q, now as int);
            &&& r.spots@.len() == rows.len()
            &&& forall|i: int| 0 <= i < rows.len() ==> r.spots@[i] == response_of(#[trigger] rows[i])
            &&& forall|i: int| 0 <= i < r.spots@.len() ==> (#[trigger] r.spots@[i]).expires_at > now
            &&& r.pagination.has_more == page_has_more(store@, q, now as int)
            &&& opt_view(r.pagination.next_cursor) == match page_cursor(store@, q, now as int) {
                Some(t) => rfc3339_text(t),
                None => None,
            }
        }),
{
    let params = to_params(query);
    let page = next_page(store, &params, now);
    let next_cursor = match page.next_cursor {
        Some(t) => format_rfc3339(t),
        None => None,
    };
    let spots = responses(&page.rows);
    assert forall|i: int| 0 <= i < spots@.len() implies (#[trigger] spots@[i]).expires_at > now by {
        assert(spots@[i] == response_of(page.rows@[i]));
    }
    SpotsListResponse {
        spots,
        pagination: SpotsPagination { has_more: page.has_more, next_cursor },
    }
}

} // verus!
