//! String helpers shared by the scheduler, sandbox and validator logic.
//!
//! Verified equality and substring search over `&str`, stated against the
//! character sequences the strings view to.

use vstd::prelude::*;

verus! {

/// Relies on std's String::push: appends the given character to the end of
/// the string.
pub assume_specification[ String::push ](s: &mut String, ch: char)
    ensures
        final(s)@ == old(s)@.push(ch),
;

/// A decimal digit.
pub open spec fn is_dec_digit(c: char) -> bool {
    48 <= c as u32 <= 57
}

/// The value of a plain digit string.
pub open spec fn spec_digits_value(s: Seq<char>) -> int
    decreases s.len(),
{
    if s.len() == 0 {
        0
    } else {
        spec_digits_value(s.drop_last()) * 10 + (s.last() as u32 - 48)
    }
}

/// A decimal integer: digits, optionally led by a minus sign.
pub open spec fn spec_is_dec(s: Seq<char>) -> bool {
    if s.len() == 0 {
        false
    } else if s[0] == '-' {
        s.len() >= 2 && forall|i: int| 1 <= i < s.len() ==> is_dec_digit(#[trigger] s[i])
    } else {
        forall|i: int| 0 <= i < s.len() ==> is_dec_digit(#[trigger] s[i])
    }
}

/// The value of a decimal integer string.
pub open spec fn spec_dec_value(s: Seq<char>) -> int {
    if s.len() > 0 && s[0] == '-' {
        -spec_digits_value(s.drop_first())
    } else {
        spec_digits_value(s)
    }
}

/// The decimal digits.
pub const DEC_DIGITS: [char; 10] = ['0', '1', '2', '3', '4', '5', '6', '7', '8', '9'];

/// The decimal digit string of an unsigned number, most significant digit
/// first.
pub open spec fn spec_udec(v: nat) -> Seq<char>
    decreases v,
{
    if v < 10 {
        seq![DEC_DIGITS@[v as int]]
    } else {
        spec_udec(v / 10).push(DEC_DIGITS@[(v % 10) as int])
    }
}

/// The digit string of a number reads back to the number, and is made of
/// digits.
pub proof fn lemma_udec_value(v: nat)
    ensures
        spec_digits_value(spec_udec(v)) == v,
        spec_udec(v).len() >= 1,
        forall|i: int| 0 <= i < spec_udec(v).len() ==> is_dec_digit(#[trigger] spec_udec(v)[i]),
        spec_udec(v)[0] != '-',
    decreases v,
{
    if v < 10 {
        assert(spec_udec(v) =~= seq![DEC_DIGITS@[v as int]]);
        assert(is_dec_digit(DEC_DIGITS@[v as int]));
        assert(spec_digits_value(spec_udec(v)) == spec_digits_value(
            spec_udec(v).drop_last(),
        ) * 10 + (spec_udec(v).last() as u32 - 48));
        assert(spec_udec(v).drop_last() =~= Seq::<char>::empty());
    } else {
        lemma_udec_value(v / 10);
        let s = spec_udec(v / 10).push(DEC_DIGITS@[(v % 10) as int]);
        assert(s.drop_last() =~= spec_udec(v / 10));
        assert(s.last() == DEC_DIGITS@[(v % 10) as int]);
        assert(is_dec_digit(DEC_DIGITS@[(v % 10) as int]));
        assert(s.last() as u32 - 48 == v % 10);
        assert(spec_digits_value(s) == (v / 10) * 10 + (v % 10));
        assert((v / 10) * 10 + (v % 10) == v) by (nonlinear_arith);
        assert(s[0] == spec_udec(v / 10)[0]);
    }
}

/// Append the decimal digits of a number.
fn push_decimal(v: u64, out: &mut String)
    ensures
        final(out)@ == old(out)@ + spec_udec(v as nat),
    decreases v,
{
    if v >= 10 {
        push_decimal(v / 10, out);
        let d = DEC_DIGITS[(v % 10) as usize];
        out.push(d);
        proof {
            assert(old(out)@ + spec_udec((v / 10) as nat).push(DEC_DIGITS@[(v % 10) as int])
                =~= (old(out)@ + spec_udec((v / 10) as nat)).push(DEC_DIGITS@[(v % 10) as int]));
        }
    } else {
        let d = DEC_DIGITS[v as usize];
        out.push(d);
        proof {
            assert(old(out)@ + seq![DEC_DIGITS@[v as int]] =~= old(out)@.push(
                DEC_DIGITS@[v as int],
            ));
        }
    }
}

/// The decimal form of an unsigned number.
pub fn u64_to_decimal(v: u64) -> (r: String)
    ensures
        r@ == spec_udec(v as nat),
        spec_is_dec(r@),
        spec_dec_value(r@) == v,
{
    let mut out = String::new();
    push_decimal(v, &mut out);
    proof {
        assert(Seq::<char>::empty() + spec_udec(v as nat) =~= spec_udec(v as nat));
        lemma_udec_value(v as nat);
    }
    out
}


/// ASCII whitespace, as trimming treats it.
pub open spec fn is_trim_space(c: char) -> bool {
    c == ' ' || c == '\t' || c == '\n' || c == '\r'
}

/// The string with leading and trailing ASCII whitespace removed: the
/// subrange from the first non-space character to the last.
pub open spec fn spec_trim(s: Seq<char>) -> Seq<char> {
    if forall|i: int| 0 <= i < s.len() ==> is_trim_space(#[trigger] s[i]) {
        Seq::empty()
    } else {
        let a = choose|a: int|
            0 <= a < s.len() && !is_trim_space(s[a]) && forall|j: int|
                0 <= j < a ==> is_trim_space(#[trigger] s[j]);
        let b = choose|b: int|
            0 <= b < s.len() && !is_trim_space(s[b]) && forall|j: int|
                b < j < s.len() ==> is_trim_space(#[trigger] s[j]);
        s.subrange(a, b + 1)
    }
}

/// The position of the first non-space character, or the length when the
/// string is all whitespace.
fn scan_leading(s: &str) -> (a: usize)
    ensures
        a <= s@.len(),
        forall|j: int| 0 <= j < a ==> is_trim_space(#[trigger] s@[j]),
        a < s@.len() ==> !is_trim_space(s@[a as int]),
{
    let len = s.unicode_len();
    let mut a: usize = 0;
    while a < len
        invariant
            a <= len,
            len == s@.len(),
            forall|j: int| 0 <= j < a ==> is_trim_space(#[trigger] s@[j]),
        decreases len - a,
    {
        let c = s.get_char(a);
        if !(c == ' ' || c == '\t' || c == '\n' || c == '\r') {
            return a;
        }
        a = a + 1;
    }
    a
}

/// The position of the last non-space character at or after `a`.
fn scan_trailing(s: &str, a: usize) -> (b: usize)
    requires
        a < s@.len(),
        !is_trim_space(s@[a as int]),
    ensures
        a <= b < s@.len(),
        !is_trim_space(s@[b as int]),
        forall|j: int| b < j < s@.len() ==> is_trim_space(#[trigger] s@[j]),
{
    let len = s.unicode_len();
    let mut b: usize = len - 1;
    while b > a
        invariant
            a <= b < len,
            len == s@.len(),
            !is_trim_space(s@[a as int]),
            forall|j: int| b < j < len ==> is_trim_space(#[trigger] s@[j]),
        decreases b,
    {
        let c = s.get_char(b);
        if !(c == ' ' || c == '\t' || c == '\n' || c == '\r') {
            return b;
        }
        b = b - 1;
    }
    b
}

/// Remove leading and trailing ASCII whitespace.  This is the trim rule
/// applied to captured output before it is reported and hashed.
pub fn trim_ascii(s: &str) -> (r: String)
    ensures
        r@ == spec_trim(s@),
{
    let len = s.unicode_len();
    let a = scan_leading(s);
    if a == len {
        proof {
            assert(forall|i: int| 0 <= i < s@.len() ==> is_trim_space(#[trigger] s@[i]));
        }
        return String::new();
    }
    let b = scan_trailing(s, a);
    proof {
        assert(!is_trim_space(s@[a as int]));
        assert(!is_trim_space(s@[b as int]));
        assert(!(forall|i: int| 0 <= i < s@.len() ==> is_trim_space(#[trigger] s@[i])));
        let wa = choose|x: int|
            0 <= x < s@.len() && !is_trim_space(s@[x]) && forall|j: int|
                0 <= j < x ==> is_trim_space(#[trigger] s@[j]);
        let wb = choose|y: int|
            0 <= y < s@.len() && !is_trim_space(s@[y]) && forall|j: int|
                y < j < s@.len() ==> is_trim_space(#[trigger] s@[j]);
        assert(wa == a as int) by {
            if wa < a as int {
                assert(is_trim_space(s@[wa]));
            }
            if wa > a as int {
                assert(is_trim_space(s@[a as int]));
            }
        }
        assert(wb == b as int) by {
            if wb < b as int {
                assert(is_trim_space(s@[b as int]));
            }
            if wb > b as int {
                assert(is_trim_space(s@[wb]));
            }
        }
    }
    let piece = s.substring_char(a, b + 1);
    piece.to_owned()
}

/// `needle` occurs in `hay` starting at position `at`.
pub open spec fn matches_at(hay: Seq<char>, needle: Seq<char>, at: int) -> bool {
    &&& 0 <= at
    &&& at + needle.len() <= hay.len()
    &&& hay.subrange(at, at + needle.len() as int) == needle
}

/// `needle` occurs somewhere in `hay`.
pub open spec fn contains_seq(hay: Seq<char>, needle: Seq<char>) -> bool {
    exists|at: int| matches_at(hay, needle, at)
}

/// Character-for-character equality of two string slices.
pub fn str_eq(a: &str, b: &str) -> (r: bool)
    ensures
        r == (a@ == b@),
{
    let a_len = a.unicode_len();
    let b_len = b.unicode_len();
    if a_len != b_len {
        assert(a@.len() != b@.len());
        return false;
    }
    let mut i: usize = 0;
    while i < a_len
        invariant
            i <= a_len,
            a_len == a@.len(),
            a_len == b@.len(),
            forall|j: int| 0 <= j < i ==> a@[j] == b@[j],
        decreases a_len - i,
    {
        if a.get_char(i) != b.get_char(i) {
            return false;
        }
        i = i + 1;
    }
    proof {
        assert(a@ =~= b@);
    }
    true
}

/// `needle` occurs at position `at` of `hay`; checked character by character.
fn str_matches_at(hay: &str, needle: &str, at: usize) -> (r: bool)
    requires
        at + needle@.len() <= hay@.len(),
    ensures
        r == matches_at(hay@, needle@, at as int),
{
    let h_len = hay.unicode_len();
    let n_len = needle.unicode_len();
    let mut i: usize = 0;
    while i < n_len
        invariant
            i <= n_len,
            h_len == hay@.len(),
            n_len == needle@.len(),
            at + n_len <= hay@.len(),
            forall|j: int| 0 <= j < i ==> hay@[at + j] == needle@[j],
        decreases n_len - i,
    {
        if hay.get_char(at + i) != needle.get_char(i) {
            assert(!matches_at(hay@, needle@, at as int)) by {
                assert(hay@.subrange(at as int, at + needle@.len() as int)[i as int]
                    == hay@[at + i]);
            }
            return false;
        }
        i = i + 1;
    }
    proof {
        assert(hay@.subrange(at as int, at + needle@.len() as int) =~= needle@);
    }
    true
}

/// Substring search: does `needle` occur anywhere in `hay`?
pub fn str_contains(hay: &str, needle: &str) -> (r: bool)
    ensures
        r == contains_seq(hay@, needle@),
{
    let h_len = hay.unicode_len();
    let n_len = needle.unicode_len();
    if n_len > h_len {
        assert(!contains_seq(hay@, needle@));
        return false;
    }
    if n_len == 0 {
        proof {
            assert(hay@.subrange(0, 0) =~= needle@);
            assert(matches_at(hay@, needle@, 0));
        }
        return true;
    }
    let last = h_len - n_len;
    let mut at: usize = 0;
    while at <= last
        invariant
            1 <= n_len <= h_len,
            last == h_len - n_len,
            at <= last + 1,
            h_len == hay@.len(),
            n_len == needle@.len(),
            forall|p: int| 0 <= p < at ==> !matches_at(hay@, needle@, p),
        decreases last + 1 - at,
    {
        if str_matches_at(hay, needle, at) {
            return true;
        }
        at = at + 1;
    }
    proof {
        assert forall|p: int| !matches_at(hay@, needle@, p) by {
            if 0 <= p && p + needle@.len() <= hay@.len() {
                assert(p < at);
            }
        }
    }
    false
}

} // verus!
