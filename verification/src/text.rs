//! Verified text scanning over sequences of characters.
//!
//! The diagnostics tool's report is plain text; what the temperature
//! reader needs from it is line splitting, substring search,
//! whitespace tokenization and signed decimal parsing.  Each operation
//! is defined as a spec function and implemented by an executable
//! function proved equal to it.

use vstd::prelude::*;
use vstd::std_specs::iter::IteratorSpec;

verus! {

/// ASCII whitespace, as the token scanner sees it.
pub open spec fn is_space(c: char) -> bool {
    c == ' ' || c == '\t' || c == '\r' || c == '\n'
}

/// An ASCII decimal digit.
pub open spec fn is_ascii_digit(c: char) -> bool {
    48 <= (c as u32) && (c as u32) <= 57
}

/// The numeric value of an ASCII decimal digit.
pub open spec fn digit_val(c: char) -> int {
    (c as u32) - 48
}

/// The first position at or after `i` holding `c`, or the length of
/// `s` when there is none.
pub open spec fn find_char(s: Seq<char>, i: int, c: char) -> int
    decreases s.len() - i,
{
    if i >= s.len() {
        s.len() as int
    } else if s[i] == c {
        i
    } else {
        find_char(s, i + 1, c)
    }
}

/// The first non-whitespace position at or after `i`, or the length
/// of `s` when the rest is all whitespace.
pub open spec fn skip_ws(s: Seq<char>, i: int) -> int
    decreases s.len() - i,
{
    if i >= s.len() {
        s.len() as int
    } else if is_space(s[i]) {
        skip_ws(s, i + 1)
    } else {
        i
    }
}

/// The first whitespace position at or after `i`, or the length of
/// `s` when the rest is one unbroken token.
pub open spec fn token_end(s: Seq<char>, i: int) -> int
    decreases s.len() - i,
{
    if i >= s.len() {
        s.len() as int
    } else if is_space(s[i]) {
        i
    } else {
        token_end(s, i + 1)
    }
}

/// The half-open range of the `n`th whitespace-separated token of `s`
/// at or after position `i`, counting from zero, or `None` when fewer
/// than `n + 1` tokens remain.
pub open spec fn nth_token_range(s: Seq<char>, i: int, n: nat) -> Option<(int, int)>
    decreases n,
{
    let a = skip_ws(s, i);
    if a >= s.len() {
        None
    } else {
        let b = token_end(s, a);
        if n == 0 {
            Some((a, b))
        } else {
            nth_token_range(s, b, (n - 1) as nat)
        }
    }
}

/// The `n`th whitespace-separated token of `s`, counting from zero.
pub open spec fn nth_token(s: Seq<char>, n: nat) -> Option<Seq<char>> {
    match nth_token_range(s, 0, n) {
        Some((a, b)) => Some(s.subrange(a, b)),
        None => None,
    }
}

/// `pat` occurs in `s` starting at position `i`.
pub open spec fn matches_at(s: Seq<char>, pat: Seq<char>, i: int) -> bool {
    0 <= i && i + pat.len() <= s.len() && s.subrange(i, i + pat.len()) == pat
}

/// `pat` occurs somewhere in `s`.
pub open spec fn contains_seq(s: Seq<char>, pat: Seq<char>) -> bool {
    exists|i: int| matches_at(s, pat, i)
}

/// Every character of `t` is an ASCII decimal digit.
pub open spec fn all_digits(t: Seq<char>) -> bool {
    forall|k: int| 0 <= k < t.len() ==> is_ascii_digit(t[k])
}

/// The value of a sequence of decimal digits, most significant first.
pub open spec fn digits_val(t: Seq<char>) -> int
    decreases t.len(),
{
    if t.len() == 0 {
        0
    } else {
        digits_val(t.drop_last()) * 10 + digit_val(t.last())
    }
}

/// Signed decimal parsing with the acceptance rules of Rust's integer
/// parser: an optional single `+` or `-`, then one or more digits and
/// nothing else, and the value must fit the type.
pub open spec fn parse_i32(t: Seq<char>) -> Option<i32> {
    let neg = t.len() > 0 && t[0] == '-';
    let ds = if t.len() > 0 && (t[0] == '-' || t[0] == '+') {
        t.drop_first()
    } else {
        t
    };
    if ds.len() == 0 || !all_digits(ds) {
        None
    } else {
        let v = if neg {
            -digits_val(ds)
        } else {
            digits_val(ds)
        };
        if -0x8000_0000 <= v <= 0x7fff_ffff {
            Some(v as i32)
        } else {
            None
        }
    }
}

proof fn lemma_digits_val_nonneg(t: Seq<char>)
    requires
        all_digits(t),
    ensures
        digits_val(t) >= 0,
    decreases t.len(),
{
    if t.len() > 0 {
        assert(all_digits(t.drop_last()));
        lemma_digits_val_nonneg(t.drop_last());
    }
}

/// A digit string is worth at least any of its prefixes: appending a
/// digit multiplies by ten and adds a digit value.
proof fn lemma_digits_val_prefix_le(t: Seq<char>, j: int)
    requires
        all_digits(t),
        0 <= j <= t.len(),
    ensures
        digits_val(t.take(j)) <= digits_val(t),
    decreases t.len() - j,
{
    if j == t.len() {
        assert(t.take(j) =~= t);
    } else {
        lemma_digits_val_prefix_le(t, j + 1);
        assert(t.take(j + 1).drop_last() =~= t.take(j));
        assert(all_digits(t.take(j)));
        lemma_digits_val_nonneg(t.take(j));
        assert(digits_val(t.take(j + 1)) == digits_val(t.take(j)) * 10 + digit_val(t[j]));
    }
}

/// Whitespace test, matching `is_space`.
fn is_space_x(c: char) -> (b: bool)
    ensures
        b == is_space(c),
{
    c == ' ' || c == '\t' || c == '\r' || c == '\n'
}

/// Find a character, matching `find_char`.
pub fn find_char_x(s: &Vec<char>, i: usize, c: char) -> (r: usize)
    requires
        i <= s@.len(),
    ensures
        r == find_char(s@, i as int, c),
        i <= r <= s@.len(),
    decreases s@.len() - i,
{
    if i >= s.len() {
        s.len()
    } else if s[i] == c {
        i
    } else {
        find_char_x(s, i + 1, c)
    }
}

/// Skip whitespace, matching `skip_ws`.
fn skip_ws_x(s: &Vec<char>, i: usize) -> (r: usize)
    requires
        i <= s@.len(),
    ensures
        r == skip_ws(s@, i as int),
        i <= r <= s@.len(),
    decreases s@.len() - i,
{
    if i >= s.len() {
        s.len()
    } else if is_space_x(s[i]) {
        skip_ws_x(s, i + 1)
    } else {
        i
    }
}

/// Find the end of a token, matching `token_end`.
fn token_end_x(s: &Vec<char>, i: usize) -> (r: usize)
    requires
        i <= s@.len(),
    ensures
        r == token_end(s@, i as int),
        i <= r <= s@.len(),
    decreases s@.len() - i,
{
    if i >= s.len() {
        s.len()
    } else if is_space_x(s[i]) {
        i
    } else {
        token_end_x(s, i + 1)
    }
}

/// Locate the `n`th token, matching `nth_token_range`.
fn nth_token_range_x(s: &Vec<char>, i: usize, n: usize) -> (r: Option<(usize, usize)>)
    requires
        i <= s@.len(),
    ensures
        match r {
            Some((a, b)) => nth_token_range(s@, i as int, n as nat) == Some((a as int, b as int))
                && i <= a <= b <= s@.len(),
            None => nth_token_range(s@, i as int, n as nat) is None,
        },
    decreases n,
{
    let a = skip_ws_x(s, i);
    if a >= s.len() {
        None
    } else {
        let b = token_end_x(s, a);
        if n == 0 {
            Some((a, b))
        } else {
            nth_token_range_x(s, b, n - 1)
        }
    }
}

/// Copy a range of characters out of a sequence.
#[verifier::loop_isolation(false)]
pub fn copy_range(s: &Vec<char>, a: usize, b: usize) -> (v: Vec<char>)
    requires
        a <= b <= s@.len(),
    ensures
        v@ == s@.subrange(a as int, b as int),
{
    let mut v: Vec<char> = Vec::new();
    let mut j: usize = a;
    while j < b
        invariant
            a <= j <= b <= s@.len(),
            v@ == s@.subrange(a as int, j as int),
        decreases b - j,
    {
        v.push(s[j]);
        proof {
            assert(s@.subrange(a as int, j + 1 as int) =~= s@.subrange(a as int, j as int).push(
                s@[j as int],
            ));
        }
        j = j + 1;
    }
    proof {
        assert(v@ =~= s@.subrange(a as int, b as int));
    }
    v
}

/// The `n`th whitespace-separated token, matching `nth_token`.
pub fn nth_token_x(s: &Vec<char>, n: usize) -> (r: Option<Vec<char>>)
    ensures
        match r {
            Some(v) => nth_token(s@, n as nat) == Some(v@),
            None => nth_token(s@, n as nat) is None,
        },
{
    match nth_token_range_x(s, 0, n) {
        Some((a, b)) => Some(copy_range(s, a, b)),
        None => None,
    }
}

/// `pat` occurs at position `i`, matching `matches_at`.
#[verifier::loop_isolation(false)]
fn matches_at_x(s: &Vec<char>, pat: &Vec<char>, i: usize) -> (b: bool)
    requires
        i + pat@.len() <= s@.len(),
    ensures
        b == matches_at(s@, pat@, i as int),
{
    proof {
        assert(s.len() == s@.len() && s.len() <= usize::MAX);
    }
    let mut k: usize = 0;
    while k < pat.len()
        invariant
            k <= pat@.len(),
            i + pat@.len() <= s@.len(),
            forall|m: int| 0 <= m < k ==> s@[i + m] == pat@[m],
        decreases pat@.len() - k,
    {
        if s[i + k] != pat[k] {
            proof {
                assert(s@.subrange(i as int, i + pat@.len())[k as int] == s@[i + k]);
            }
            return false;
        }
        k = k + 1;
    }
    proof {
        assert(s@.subrange(i as int, i + pat@.len()) =~= pat@);
    }
    true
}

/// Substring search, matching `contains_seq`.
#[verifier::loop_isolation(false)]
pub fn contains_x(s: &Vec<char>, pat: &Vec<char>) -> (b: bool)
    ensures
        b == contains_seq(s@, pat@),
{
    if pat.len() == 0 {
        proof {
            assert(s@.subrange(0, 0) =~= pat@);
            assert(matches_at(s@, pat@, 0));
        }
        return true;
    }
    if pat.len() > s.len() {
        return false;
    }
    let last_start: usize = s.len() - pat.len();
    let mut i: usize = 0;
    while i <= last_start
        invariant
            pat@.len() <= s@.len(),
            last_start == s@.len() - pat@.len(),
            i <= last_start + 1,
            forall|m: int| 0 <= m < i ==> !matches_at(s@, pat@, m),
        decreases last_start + 1 - i,
    {
        if matches_at_x(s, pat, i) {
            return true;
        }
        i = i + 1;
    }
    false
}

/// Signed decimal parsing, matching `parse_i32`.
#[verifier::loop_isolation(false)]
pub fn parse_i32_x(t: &Vec<char>) -> (r: Option<i32>)
    ensures
        r == parse_i32(t@),
{
    let mut j: usize = 0;
    let mut neg = false;
    if t.len() > 0 && (t[0] == '-' || t[0] == '+') {
        neg = t[0] == '-';
        j = 1;
    }
    let ghost ds = if t@.len() > 0 && (t@[0] == '-' || t@[0] == '+') {
        t@.drop_first()
    } else {
        t@
    };
    if j >= t.len() {
        // no digits at all
        return None;
    }
    let mut mag: u64 = 0;
    let start: usize = j;
    while j < t.len()
        invariant
            start <= j <= t@.len(),
            start == (if t@.len() > 0 && (t@[0] == '-' || t@[0] == '+') {
                1int
            } else {
                0int
            }),
            ds =~= t@.subrange(start as int, t@.len() as int),
            ds.len() > 0,
            all_digits(ds.take(j - start)),
            mag == digits_val(ds.take(j - start)),
            mag <= 0x8000_0000,
        decreases t@.len() - j,
    {
        let c = t[j];
        let u: u32 = c as u32;
        if u < 48 || u > 57 {
            proof {
                assert(!is_ascii_digit(ds[j - start]));
                assert(!all_digits(ds));
            }
            return None;
        }
        let d: u64 = (u - 48) as u64;
        mag = mag * 10 + d;
        proof {
            assert(ds.take(j - start + 1).drop_last() =~= ds.take(j - start));
            assert(ds.take(j - start + 1).last() == ds[j - start]);
        }
        j = j + 1;
        if mag > 0x8000_0000 {
            proof {
                if all_digits(ds) {
                    lemma_digits_val_prefix_le(ds, j - start);
                    assert(digits_val(ds) >= mag);
                }
            }
            return None;
        }
    }
    proof {
        assert(ds.take(t@.len() - start) =~= ds);
        assert(mag == digits_val(ds));
    }
    if neg {
        let v: i64 = -(mag as i64);
        Some(v as i32)
    } else {
        if mag > 0x7fff_ffff {
            return None;
        }
        Some(mag as i32)
    }
}

/// Collect the characters of a string slice.
#[verifier::loop_isolation(false)]
pub fn chars_of(s: &str) -> (v: Vec<char>)
    ensures
        v@ == s@,
{
    broadcast use vstd::string::axiom_spec_iter;
    broadcast use vstd::string::next_postcondition;

    let mut it = s.chars();
    let mut v: Vec<char> = Vec::new();
    loop
        invariant
            v@ + it.remaining() == s@,
        decreases s@.len() - v@.len(),
    {
        match it.next() {
            Some(c) => {
                v.push(c);
            },
            None => {
                proof {
                    assert(v@ + it.remaining() =~= v@);
                }
                return v;
            },
        }
    }
}

} // verus!
