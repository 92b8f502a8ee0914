//! Facts about sequences of store operations, stated over the operations' own contracts.
use vstd::prelude::*;
use crate::normalize::key_stored;
use crate::query::{page_cursor, page_has_more, page_rows};
use crate::spot::{opt_view, AggregatedSpot, SpotRow, SpotSource};
use crate::store::{
    blocks, has_key, inserted, matcher, pair_ok, refreshed, rows_wf, same_self_key, same_upstream_key,
    self_row, self_spot_blocked, spot_matches, upsert_effect, InsertSelfSpotParams, ListSpotsParams,
    SELF_SPOT_WINDOW,
};

verus! {

proof fn lemma_key_unique(rows: Seq<SpotRow>, n: u64, i: int, j: int, source: SpotSource, ext: Seq<char>)
    requires
        rows_wf(rows, n),
        0 <= i < rows.len(),
        0 <= j < rows.len(),
        has_key(rows[i], source, ext),
        has_key(rows[j], source, ext),
    ensures
        i == j,
{
    if i < j {
        assert(pair_ok(rows[i], rows[j]));
        assert(same_upstream_key(rows[i], rows[j]));
    } else if j < i {
        assert(pair_ok(rows[j], rows[i]));
        assert(same_upstream_key(rows[j], rows[i]));
    }
}

/// Two successive upserts of reports with the same `(source, external_id)`
/// leave exactly one row with that key. It carries the second report's
/// frequency, mode, reference, reference name and comments, and keeps the
/// identifier and event time the first upsert gave it; that event time is the
/// first report's unless the key was stored already.
pub proof fn lemma_reingest(
    s0: Seq<SpotRow>,
    s1: Seq<SpotRow>,
    s2: Seq<SpotRow>,
    n1: u64,
    n2: u64,
    a: AggregatedSpot,
    b: AggregatedSpot,
    t1: i64,
    t2: i64,
    id1: u64,
    id2: u64,
    r1: SpotRow,
    r2: SpotRow,
)
    requires
        upsert_effect(s0, s1, a, t1, id1, r1),
        upsert_effect(s1, s2, b, t2, id2, r2),
        rows_wf(s1, n1),
        rows_wf(s2, n2),
        a.source == b.source,
        a.external_id@ == b.external_id@,
    ensures
        exists|i: int|
            0 <= i < s2.len() && s2[i] == r2 && has_key(#[trigger] s2[i], b.source, b.external_id@) && forall|j: int|
                0 <= j < s2.len() && j != i ==> !has_key(#[trigger] s2[j], b.source, b.external_id@),
        r2.frequency_hz == b.frequency_hz,
        r2.mode == b.mode,
        r2.reference == b.reference,
        r2.reference_name == b.reference_name,
        r2.comments == b.comments,
        r2.id == r1.id,
        r2.spotted_at == r1.spotted_at,
        !key_stored(s0, a) ==> r1.spotted_at == a.spotted_at,
{
    // the first upsert leaves r1 in s1 under the key
    let p = if exists|i: int| 0 <= i < s0.len() && has_key(#[trigger] s0[i], a.source, a.external_id@) {
        let i = choose|i: int|
            0 <= i < s0.len() && has_key(#[trigger] s0[i], a.source, a.external_id@) && r1 == refreshed(s0[i], a, t1)
                && s1 == s0.update(i, r1);
        assert(s1[i] == r1);
        i
    } else {
        let k = choose|k: int| 0 <= k <= s0.len() && s1 == s0.insert(k, r1);
        assert(s1[k] == r1);
        k
    };
    assert(has_key(s1[p], b.source, b.external_id@));
    // so the second upsert refreshes that row
    let i = choose|i: int|
        0 <= i < s1.len() && has_key(#[trigger] s1[i], b.source, b.external_id@) && r2 == refreshed(s1[i], b, t2)
            && s2 == s1.update(i, r2);
    lemma_key_unique(s1, n1, i, p, b.source, b.external_id@);
    assert(s2[i] == r2);
    assert forall|j: int| 0 <= j < s2.len() && j != i implies !has_key(#[trigger] s2[j], b.source, b.external_id@) by {
        if has_key(s2[j], b.source, b.external_id@) {
            lemma_key_unique(s2, n2, i, j, b.source, b.external_id@);
        }
    }
}

/// After a self-spot is stored at `now`, a second one by the same owner for the
/// same program is refused at any time before the first one's deadline.
pub proof fn lemma_self_spot_blocks(
    s0: Seq<SpotRow>,
    s1: Seq<SpotRow>,
    p: InsertSelfSpotParams,
    id: u64,
    now: i64,
    later: int,
)
    requires
        inserted(s0, s1, self_row(p, id, now)),
        now <= i64::MAX - SELF_SPOT_WINDOW,
        later < now + SELF_SPOT_WINDOW,
    ensures
        self_spot_blocked(s1, p.participant_id, p.program_slug@, later),
{
    let row = self_row(p, id, now);
    let k = choose|k: int| 0 <= k <= s0.len() && s1 == s0.insert(k, row);
    assert(s1[k] == row);
    assert(blocks(s1[k], p.participant_id, p.program_slug@, later));
}

/// Once every self-spot of an owner for a program has passed its deadline, a
/// new one is taken.
pub proof fn lemma_self_spot_free_after_expiry(rows: Seq<SpotRow>, owner: u128, program: Seq<char>, now: int)
    requires
        forall|i: int|
            0 <= i < rows.len() && (#[trigger] rows[i]).source == SpotSource::SelfSpot && rows[i].submitted_by
                == Some(owner) && opt_view(rows[i].program_slug) == Some(program) ==> rows[i].expires_at <= now,
    ensures
        !self_spot_blocked(rows, owner, program, now),
{
    assert forall|i: int| 0 <= i < rows.len() implies !blocks(#[trigger] rows[i], owner, program, now) by {}
}

/// Deleting the unexpired self-spot of an owner for a program lets a new one
/// in, provided no stored row was seen after `now`.
pub proof fn lemma_self_spot_free_after_delete(
    rows: Seq<SpotRow>,
    n: u64,
    i: int,
    owner: u128,
    program: Seq<char>,
    now: int,
)
    requires
        rows_wf(rows, n),
        0 <= i < rows.len(),
        blocks(rows[i], owner, program, now),
        forall|j: int| 0 <= j < rows.len() ==> (#[trigger] rows[j]).spotted_at <= now,
    ensures
        !self_spot_blocked(rows.remove(i), owner, program, now),
{
    let s = rows.remove(i);
    assert forall|j: int| 0 <= j < s.len() implies !blocks(#[trigger] s[j], owner, program, now) by {
        let j2 = if j < i { j } else { j + 1 };
        assert(s[j] == rows[j2]);
        if blocks(rows[j2], owner, program, now) {
            assert(same_self_key(rows[i], rows[j2]));
            assert(rows[j2].spotted_at <= now);
            assert(rows[i].spotted_at <= now);
            if i < j2 {
                assert(pair_ok(rows[i], rows[j2]));
            } else {
                assert(pair_ok(rows[j2], rows[i]));
            }
        }
    }
}

/// Event times fall strictly from each row to the next.
pub open spec fn strictly_newest_first(m: Seq<SpotRow>) -> bool {
    forall|i: int, j: int| 0 <= i < j < m.len() ==> (#[trigger] m[i]).spotted_at > (#[trigger] m[j]).spotted_at
}

/// The query that continues a listing from cursor `c`.
pub open spec fn continued(q: ListSpotsParams, c: i64) -> ListSpotsParams {
    ListSpotsParams { cursor: Some(c), ..q }
}

/// The rows of up to `fuel` pages, each page asked for with the cursor the one
/// before it returned, while more rows exist.
pub open spec fn walk(rows: Seq<SpotRow>, q: ListSpotsParams, now: int, fuel: nat) -> Seq<SpotRow>
    decreases fuel,
{
    if fuel == 0 {
        Seq::empty()
    } else {
        match page_cursor(rows, q, now) {
            Some(c) => page_rows(rows, q, now) + walk(rows, continued(q, c), now, (fuel - 1) as nat),
            None => page_rows(rows, q, now),
        }
    }
}

pub open spec fn older_than(c: i64) -> spec_fn(SpotRow) -> bool {
    |r: SpotRow| r.spotted_at < c
}

proof fn lemma_filter_none(m: Seq<SpotRow>, p: spec_fn(SpotRow) -> bool)
    requires
        forall|i: int| 0 <= i < m.len() ==> !p(#[trigger] m[i]),
    ensures
        m.filter(p) == Seq::<SpotRow>::empty(),
    decreases m.len(),
{
    reveal(Seq::filter);
    if m.len() > 0 {
        let t = m.drop_last();
        assert forall|i: int| 0 <= i < t.len() implies !p(#[trigger] t[i]) by {
            assert(t[i] == m[i]);
        }
        lemma_filter_none(t, p);
    }
}

proof fn lemma_filter_and(
    s: Seq<SpotRow>,
    p: spec_fn(SpotRow) -> bool,
    p2: spec_fn(SpotRow) -> bool,
    both: spec_fn(SpotRow) -> bool,
)
    requires
        forall|r: SpotRow| #[trigger] both(r) == (p(r) && p2(r)),
    ensures
        s.filter(both) == s.filter(p).filter(p2),
    decreases s.len(),
{
    reveal(Seq::filter);
    if s.len() > 0 {
        let t = s.drop_last();
        let x = s.last();
        lemma_filter_and(t, p, p2, both);
        assert(s == t.push(x));
        t.lemma_filter_push(x, both);
        t.lemma_filter_push(x, p);
        t.filter(p).lemma_filter_push(x, p2);
    }
}

proof fn lemma_filter_older(m: Seq<SpotRow>, c: i64, l: int)
    requires
        1 <= l <= m.len(),
        strictly_newest_first(m),
        c == m[l - 1].spotted_at,
    ensures
        m.filter(older_than(c)) == m.skip(l),
    decreases m.len(),
{
    if m.len() == l {
        assert forall|i: int| 0 <= i < m.len() implies !older_than(c)(#[trigger] m[i]) by {
            if i < l - 1 {
                assert(m[i].spotted_at > m[l - 1].spotted_at);
            }
        }
        lemma_filter_none(m, older_than(c));
        assert(m.skip(l) =~= Seq::<SpotRow>::empty());
    } else {
        let t = m.drop_last();
        let x = m.last();
        assert forall|i: int, j: int| 0 <= i < j < t.len() implies (#[trigger] t[i]).spotted_at > (
        #[trigger] t[j]).spotted_at by {
            assert(t[i] == m[i] && t[j] == m[j]);
        }
        assert(t[l - 1] == m[l - 1]);
        lemma_filter_older(t, c, l);
        assert(m == t.push(x));
        t.lemma_filter_push(x, older_than(c));
        assert(m[l - 1].spotted_at > m[m.len() - 1].spotted_at);
        assert(m.skip(l) =~= t.skip(l).push(x));
    }
}

proof fn lemma_continued_rows(rows: Seq<SpotRow>, q: ListSpotsParams, now: int)
    requires
        1 <= q.limit,
        page_has_more(rows, q, now),
        strictly_newest_first(rows.filter(matcher(q, now))),
    ensures
        ({
            let m = rows.filter(matcher(q, now));
            let c = page_cursor(rows, q, now)->0;
            &&& c == m[q.limit - 1].spotted_at
            &&& rows.filter(matcher(continued(q, c), now)) == m.skip(q.limit as int)
        }),
{
    let m = rows.filter(matcher(q, now));
    let l = q.limit as int;
    let c = m[l - 1].spotted_at;
    assert(page_rows(rows, q, now) == m.take(l));
    rows.lemma_filter_pred(matcher(q, now), l - 1);
    assert(spot_matches(q, now, m[l - 1]));
    assert forall|r: SpotRow| #[trigger] matcher(continued(q, c), now)(r) == (matcher(q, now)(r) && older_than(c)(r)) by {
        assert(matcher(continued(q, c), now)(r) == spot_matches(continued(q, c), now, r));
        assert(matcher(q, now)(r) == spot_matches(q, now, r));
    }
    lemma_filter_and(rows, matcher(q, now), older_than(c), matcher(continued(q, c), now));
    lemma_filter_older(m, c, l);
}

proof fn lemma_walk(rows: Seq<SpotRow>, q: ListSpotsParams, now: int, fuel: nat)
    requires
        1 <= q.limit,
        strictly_newest_first(rows.filter(matcher(q, now))),
        fuel > rows.filter(matcher(q, now)).len(),
    ensures
        walk(rows, q, now, fuel) == rows.filter(matcher(q, now)),
    decreases fuel,
{
    let m = rows.filter(matcher(q, now));
    let l = q.limit as int;
    if page_has_more(rows, q, now) {
        let c = page_cursor(rows, q, now)->0;
        lemma_continued_rows(rows, q, now);
        let q2 = continued(q, c);
        let m2 = rows.filter(matcher(q2, now));
        assert(m2 == m.skip(l));
        assert forall|i: int, j: int| 0 <= i < j < m2.len() implies (#[trigger] m2[i]).spotted_at > (
        #[trigger] m2[j]).spotted_at by {
            assert(m2[i] == m[i + l] && m2[j] == m[j + l]);
        }
        lemma_walk(rows, q2, now, (fuel - 1) as nat);
        assert(m.take(l) + m.skip(l) =~= m);
    }
}

/// Following the cursors of a listing from its first page, with the store and
/// the time held still, yields every active matching row exactly once and
/// newest first, provided no two such rows share an event time. Each page holds
/// at most `limit` rows, and says more exist exactly when more than `limit`
/// matching rows remain.
pub proof fn lemma_pages_enumerate(rows: Seq<SpotRow>, q: ListSpotsParams, now: int)
    requires
        1 <= q.limit,
        q.cursor is None,
        strictly_newest_first(rows.filter(matcher(q, now))),
    ensures
        walk(rows, q, now, rows.filter(matcher(q, now)).len() + 1) == rows.filter(matcher(q, now)),
        page_rows(rows, q, now).len() <= q.limit,
        page_has_more(rows, q, now) == (rows.filter(matcher(q, now)).len() > q.limit),
{
    lemma_walk(rows, q, now, rows.filter(matcher(q, now)).len() + 1);
}

} // verus!
