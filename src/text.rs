//! Small verified text operations: finding a character, cutting, and decimal numerals.
use vstd::prelude::*;

verus! {

/// Index of the first `c` in `s`, or `s.len()` when there is none.
pub open spec fn char_pos(s: Seq<char>, c: char) -> int
    decreases s.len(),
{
    if s.len() == 0 {
        0
    } else {
        let p = char_pos(s.drop_last(), c);
        if p < s.len() - 1 {
            p
        } else if s.last() == c {
            s.len() - 1
        } else {
            s.len() as int
        }
    }
}

pub proof fn lemma_char_pos_bounds(s: Seq<char>, c: char)
    ensures
        0 <= char_pos(s, c) <= s.len(),
        char_pos(s, c) < s.len() ==> s[char_pos(s, c)] == c,
        forall|i: int| 0 <= i < char_pos(s, c) ==> s[i] != c,
    decreases s.len(),
{
    if s.len() > 0 {
        lemma_char_pos_bounds(s.drop_last(), c);
        assert forall|i: int| 0 <= i < char_pos(s, c) implies s[i] != c by {
            if i < s.len() - 1 {
                assert(s.drop_last()[i] == s[i]);
            }
        }
    }
}

proof fn lemma_char_pos_step(s: Seq<char>, c: char, i: int)
    requires
        0 <= i < s.len(),
    ensures
        char_pos(s.take(i + 1), c) == if char_pos(s.take(i), c) < i {
            char_pos(s.take(i), c)
        } else if s[i] == c {
            i
        } else {
            i + 1
        },
{
    assert(s.take(i + 1).drop_last() =~= s.take(i));
}

proof fn lemma_char_pos_prefix(s: Seq<char>, c: char, i: int)
    requires
        0 <= i <= s.len(),
        char_pos(s.take(i), c) < i,
    ensures
        char_pos(s, c) == char_pos(s.take(i), c),
    decreases s.len() - i,
{
    if i < s.len() {
        lemma_char_pos_step(s, c, i);
        lemma_char_pos_prefix(s, c, i + 1);
    } else {
        assert(s.take(i) =~= s);
    }
}

/// Index of the first `c` in `s`, or its length.
pub fn find_char(s: &str, c: char) -> (r: usize)
    ensures
        r == char_pos(s@, c),
{
    let n = s.unicode_len();
    let mut i: usize = 0;
    while i < n
        invariant
            n == s@.len(),
            0 <= i <= n,
            char_pos(s@.take(i as int), c) == i,
        decreases n - i,
    {
        proof {
            lemma_char_pos_step(s@, c, i as int);
        }
        if s.get_char(i) == c {
            proof {
                lemma_char_pos_prefix(s@, c, i as int + 1);
            }
            return i;
        }
        i = i + 1;
    }
    proof {
        assert(s@.take(n as int) =~= s@);
    }
    n
}

/// The characters of `s` from `from` up to `to`, as a new string.
pub fn slice_text(s: &str, from: usize, to: usize) -> (r: String)
    requires
        from <= to <= s@.len(),
    ensures
        r@ == s@.subrange(from as int, to as int),
{
    s.substring_char(from, to).to_owned()
}

/// The text of the part before the first `sep`, and of the part after it if there is one.
pub open spec fn split_once(s: Seq<char>, sep: char) -> (Seq<char>, Option<Seq<char>>) {
    let p = char_pos(s, sep);
    if p < s.len() {
        (s.take(p), Some(s.skip(p + 1)))
    } else {
        (s, None)
    }
}

/// Splits `s` at its first `sep`.
pub fn split_first(s: &str, sep: char) -> (r: (String, Option<String>))
    ensures
        (r.0@, crate::spot::opt_view(r.1)) == split_once(s@, sep),
{
    let n = s.unicode_len();
    let p = find_char(s, sep);
    proof {
        lemma_char_pos_bounds(s@, sep);
    }
    if p < n {
        let head = slice_text(s, 0, p);
        let tail = slice_text(s, p + 1, n);
        proof {
            assert(s@.subrange(0, p as int) =~= s@.take(p as int));
            assert(s@.subrange(p + 1, n as int) =~= s@.skip(p + 1));
        }
        (head, Some(tail))
    } else {
        let whole = slice_text(s, 0, n);
        proof {
            assert(s@.subrange(0, n as int) =~= s@);
        }
        (whole, None)
    }
}

pub open spec fn digit_char(d: nat) -> char {
    if d == 0 { '0' }
    else if d == 1 { '1' }
    else if d == 2 { '2' }
    else if d == 3 { '3' }
    else if d == 4 { '4' }
    else if d == 5 { '5' }
    else if d == 6 { '6' }
    else if d == 7 { '7' }
    else if d == 8 { '8' }
    else { '9' }
}

/// Decimal numeral of `n`, without leading zeros.
pub open spec fn nat_text(n: nat) -> Seq<char>
    decreases n,
{
    if n < 10 {
        seq![digit_char(n)]
    } else {
        nat_text(n / 10).push(digit_char(n % 10))
    }
}

/// Decimal numeral of `n`, with a leading '-' when it is negative.
pub open spec fn int_text(n: int) -> Seq<char> {
    if n < 0 {
        seq!['-'] + nat_text((-n) as nat)
    } else {
        nat_text(n as nat)
    }
}

fn digit_text(d: u64) -> (r: &'static str)
    requires
        d < 10,
    ensures
        r@ == seq![digit_char(d as nat)],
{
    proof {
        reveal_strlit("0");
        reveal_strlit("1");
        reveal_strlit("2");
        reveal_strlit("3");
        reveal_strlit("4");
        reveal_strlit("5");
        reveal_strlit("6");
        reveal_strlit("7");
        reveal_strlit("8");
        reveal_strlit("9");
    }
    if d == 0 { "0" }
    else if d == 1 { "1" }
    else if d == 2 { "2" }
    else if d == 3 { "3" }
    else if d == 4 { "4" }
    else if d == 5 { "5" }
    else if d == 6 { "6" }
    else if d == 7 { "7" }
    else if d == 8 { "8" }
    else { "9" }
}

fn unsigned_text(n: u64) -> (r: String)
    ensures
        r@ == nat_text(n as nat),
    decreases n,
{
    if n < 10 {
        digit_text(n).to_owned()
    } else {
        let mut s = unsigned_text(n / 10);
        s.append(digit_text(n % 10));
        s
    }
}

/// The decimal numeral of `n`.
pub fn int_to_text(n: i64) -> (r: String)
    ensures
        r@ == int_text(n as int),
{
    if n < 0 {
        let m: u64 = (0 - (n as i128)) as u64;
        let mut s = "-".to_owned();
        proof {
            reveal_strlit("-");
        }
        s.append(unsigned_text(m).as_str());
        s
    } else {
        unsigned_text(n as u64)
    }
}

} // verus!
