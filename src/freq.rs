//! Decimal frequency text, read into a whole number of hertz.
use vstd::prelude::*;
use crate::text::{char_pos, find_char, lemma_char_pos_bounds};

verus! {

pub open spec fn is_digit(c: char) -> bool {
    '0' <= c && c <= '9'
}

pub open spec fn digit_value(c: char) -> nat {
    (c as int - '0' as int) as nat
}

pub open spec fn all_digits(s: Seq<char>) -> bool {
    forall|i: int| 0 <= i < s.len() ==> is_digit(#[trigger] s[i])
}

/// The number that a string of decimal digits denotes.
pub open spec fn digits_value(s: Seq<char>) -> nat
    decreases s.len(),
{
    if s.len() == 0 {
        0
    } else {
        digits_value(s.drop_last()) * 10 + digit_value(s.last())
    }
}

pub open spec fn int_part(s: Seq<char>) -> Seq<char> {
    s.take(char_pos(s, '.'))
}

pub open spec fn frac_part(s: Seq<char>) -> Seq<char> {
    if char_pos(s, '.') < s.len() {
        s.skip(char_pos(s, '.') + 1)
    } else {
        Seq::empty()
    }
}

/// Plain decimal notation: digits, optionally one '.' and more digits, at least one digit.
pub open spec fn is_decimal(s: Seq<char>) -> bool {
    &&& all_digits(int_part(s))
    &&& all_digits(frac_part(s))
    &&& int_part(s).len() + frac_part(s).len() > 0
}

/// The first `places` fraction digits, padded with zeros.
pub open spec fn padded(frac: Seq<char>, places: nat) -> Seq<char> {
    if frac.len() >= places {
        frac.take(places as int)
    } else {
        frac + Seq::new((places - frac.len()) as nat, |i: int| '0')
    }
}

/// The digits of `s` with the decimal point moved `places` to the right,
/// dropping what lies beyond it.
pub open spec fn shifted_digits(s: Seq<char>, places: nat) -> Seq<char> {
    int_part(s) + padded(frac_part(s), places)
}

/// The value of decimal text `s` times `10^places`, truncated to a whole number.
pub open spec fn scaled_value(s: Seq<char>, places: nat) -> nat {
    digits_value(shifted_digits(s, places))
}

pub open spec fn scaled_decimal(s: Seq<char>, places: nat) -> Option<u64> {
    if is_decimal(s) && scaled_value(s, places) <= u64::MAX {
        Some(scaled_value(s, places) as u64)
    } else {
        None
    }
}

pub proof fn lemma_digits_push(s: Seq<char>, c: char)
    ensures
        digits_value(s.push(c)) == digits_value(s) * 10 + digit_value(c),
{
    assert(s.push(c).drop_last() =~= s);
}

/// Reads plain decimal text as a whole number of `10^-places` units
/// (with `places == 3`, kilohertz text becomes hertz). Digits past `places`
/// fraction digits are dropped. `None` for text that is not plain decimal
/// notation, or whose value does not fit in a `u64`.
pub fn parse_decimal_scaled(s: &str, places: usize) -> (r: Option<u64>)
    ensures
        r == scaled_decimal(s@, places as nat),
{
    let n = s.unicode_len();
    let dp = find_char(s, '.');
    proof {
        lemma_char_pos_bounds(s@, '.');
    }
    let frac_start: usize = if dp < n { dp + 1 } else { n };
    let frac_len: usize = n - frac_start;
    let ghost ip = int_part(s@);
    let ghost fp = frac_part(s@);
    let ghost sd = shifted_digits(s@, places as nat);
    proof {
        assert(ip.len() == dp);
        assert(fp.len() == frac_len);
        assert forall|j: int| 0 <= j < frac_len implies fp[j] == s@[frac_start + j] by {}
        assert forall|j: int| 0 <= j < dp implies ip[j] == s@[j] by {}
    }
    if dp == 0 && frac_len == 0 {
        proof {
            assert(!is_decimal(s@));
        }
        return None;
    }
    // every fraction digit must be a digit, also those past `places`
    let mut j: usize = 0;
    while j < frac_len
        invariant
            ip == int_part(s@),
            fp == frac_part(s@),
            sd == shifted_digits(s@, places as nat),
            n == s@.len(),
            frac_start + frac_len == n,
            fp.len() == frac_len,
            forall|k: int| 0 <= k < frac_len ==> fp[k] == s@[frac_start + k],
            0 <= j <= frac_len,
            forall|k: int| 0 <= k < j ==> is_digit(#[trigger] fp[k]),
        decreases frac_len - j,
    {
        let c = s.get_char(frac_start + j);
        if !('0' <= c && c <= '9') {
            proof {
                assert(fp[j as int] == c);
                lemma_not_decimal_frac(s@, j as int);
            }
            return None;
        }
        j = j + 1;
    }
    proof {
        assert(padded(fp, places as nat).len() == places);
        assert(sd.len() == dp + places);
        assert forall|k: int| 0 <= k < dp implies sd[k] == s@[k] by {}
        assert forall|k: int| 0 <= k < places implies #[trigger] sd[dp + k] == (if k < frac_len {
            s@[frac_start + k]
        } else {
            '0'
        }) by {
            let pf = padded(fp, places as nat);
            assert(sd[dp + k] == pf[k]);
        }
    }
    let mut acc: u64 = 0;
    let mut i: usize = 0;
    while i < dp
        invariant
            ip == int_part(s@),
            fp == frac_part(s@),
            sd == shifted_digits(s@, places as nat),
            n == s@.len(),
            dp <= n,
            sd.len() == dp + places,
            ip.len() == dp,
            forall|k: int| 0 <= k < dp ==> ip[k] == s@[k],
            forall|k: int| 0 <= k < dp ==> sd[k] == s@[k],
            0 <= i <= dp,
            all_digits(sd.take(i as int)),
            acc == digits_value(sd.take(i as int)),
        decreases dp - i,
    {
        let c: char = s.get_char(i);
        if !('0' <= c && c <= '9') {
            proof {
                assert(ip[i as int] == c);
                lemma_not_decimal_int(s@, i as int);
            }
            return None;
        }
        proof {
            assert(sd.take(i as int + 1) =~= sd.take(i as int).push(c));
            lemma_digits_push(sd.take(i as int), c);
        }
        let d: u64 = (c as u32 - '0' as u32) as u64;
        if acc > (u64::MAX - d) / 10 {
            proof {
                lemma_too_large(acc as nat, d as nat, digits_value(sd.take(i as int + 1)));
                lemma_prefix_value_le(sd, i as int + 1);
                assert(scaled_value(s@, places as nat) > u64::MAX);
            }
            return None;
        }
        acc = acc * 10 + d;
        i = i + 1;
    }
    proof {
        assert forall|k: int| 0 <= k < dp implies is_digit(#[trigger] ip[k]) by {
            assert(sd.take(dp as int)[k] == sd[k]);
        }
    }
    let mut j: usize = 0;
    while j < places
        invariant
            ip == int_part(s@),
            fp == frac_part(s@),
            sd == shifted_digits(s@, places as nat),
            n == s@.len(),
            frac_start + frac_len == n,
            dp <= n,
            sd.len() == dp + places,
            ip.len() == dp,
            forall|k: int| 0 <= k < dp ==> is_digit(#[trigger] ip[k]),
            forall|k: int| 0 <= k < dp ==> ip[k] == sd[k],
            forall|k: int| 0 <= k < places ==> #[trigger] sd[dp + k] == (if k < frac_len {
                s@[frac_start + k]
            } else {
                '0'
            }),
            fp.len() == frac_len,
            forall|k: int| 0 <= k < frac_len ==> is_digit(#[trigger] fp[k]),
            forall|k: int| 0 <= k < frac_len ==> fp[k] == s@[frac_start + k],
            0 <= j <= places,
            acc == digits_value(sd.take(dp + j)),
        decreases places - j,
    {
        let c: char = if j < frac_len {
            s.get_char(frac_start + j)
        } else {
            '0'
        };
        proof {
            assert(c == sd[dp + j]);
            if j < frac_len {
                assert(fp[j as int] == c);
            }
            assert(sd.take(dp + j + 1) =~= sd.take(dp + j).push(c));
            lemma_digits_push(sd.take(dp + j), c);
        }
        let d: u64 = (c as u32 - '0' as u32) as u64;
        if acc > (u64::MAX - d) / 10 {
            proof {
                lemma_too_large(acc as nat, d as nat, digits_value(sd.take(dp + j + 1)));
                lemma_prefix_value_le(sd, dp + j + 1);
                assert(scaled_value(s@, places as nat) > u64::MAX);
            }
            return None;
        }
        acc = acc * 10 + d;
        j = j + 1;
    }
    proof {
        assert(sd.take(dp + places) =~= sd);
    }
    Some(acc)
}

proof fn lemma_not_decimal_int(s: Seq<char>, i: int)
    requires
        0 <= i < int_part(s).len(),
        !is_digit(int_part(s)[i]),
    ensures
        !is_decimal(s),
{
}

proof fn lemma_not_decimal_frac(s: Seq<char>, i: int)
    requires
        0 <= i < frac_part(s).len(),
        !is_digit(frac_part(s)[i]),
    ensures
        !is_decimal(s),
{
}

pub proof fn lemma_too_large(acc: nat, d: nat, v: nat)
    requires
        v == acc * 10 + d,
        acc > (u64::MAX - d) / 10,
        d <= 9,
    ensures
        v > u64::MAX,
{
    assert(v > u64::MAX) by (nonlinear_arith)
        requires
            v == acc * 10 + d,
            acc > (u64::MAX - d) / 10,
            d <= 9,
    ;
}

pub proof fn lemma_prefix_value_le(s: Seq<char>, i: int)
    requires
        0 <= i <= s.len(),
    ensures
        digits_value(s.take(i)) <= digits_value(s),
    decreases s.len() - i,
{
    if i < s.len() {
        lemma_prefix_value_le(s, i + 1);
        assert(s.take(i + 1).drop_last() =~= s.take(i));
    } else {
        assert(s.take(i) =~= s);
    }
}

} // verus!
