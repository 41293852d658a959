//! Text helpers: decimal numbers, substring search and lower-casing.

use vstd::prelude::*;
use vstd::string::*;

verus! {

/// The character that stands for the decimal digit `d`.
pub open spec fn digit_char(d: nat) -> char
    recommends
        d < 10,
{
    if d == 0 {
        '0'
    } else if d == 1 {
        '1'
    } else if d == 2 {
        '2'
    } else if d == 3 {
        '3'
    } else if d == 4 {
        '4'
    } else if d == 5 {
        '5'
    } else if d == 6 {
        '6'
    } else if d == 7 {
        '7'
    } else if d == 8 {
        '8'
    } else {
        '9'
    }
}

/// The decimal numeral of `n`, without leading zeros.
pub open spec fn decimal(n: nat) -> Seq<char>
    decreases n,
{
    if n < 10 {
        seq![digit_char(n)]
    } else {
        decimal(n / 10).push(digit_char(n % 10))
    }
}

/// The decimal numeral of `i`, with a minus sign in front of a negative one.
pub open spec fn signed_decimal(i: int) -> Seq<char> {
    if i < 0 {
        seq!['-'] + decimal((-i) as nat)
    } else {
        decimal(i as nat)
    }
}

/// The decimal numeral of `n`, padded with a zero to two digits.
pub open spec fn two_digits(n: nat) -> Seq<char> {
    if n < 10 {
        seq!['0'] + decimal(n)
    } else {
        decimal(n)
    }
}

fn digit_str(d: u64) -> (r: &'static str)
    requires
        d < 10,
    ensures
        r@ == seq![digit_char(d as nat)],
{
    proof {
        reveal_strlit("0");
        reveal_strlit("1");
        reveal_strlit("2");
        reveal_strlit("3");
        reveal_strlit("4");
        reveal_strlit("5");
        reveal_strlit("6");
        reveal_strlit("7");
        reveal_strlit("8");
        reveal_strlit("9");
    }
    let r = if d == 0 {
        "0"
    } else if d == 1 {
        "1"
    } else if d == 2 {
        "2"
    } else if d == 3 {
        "3"
    } else if d == 4 {
        "4"
    } else if d == 5 {
        "5"
    } else if d == 6 {
        "6"
    } else if d == 7 {
        "7"
    } else if d == 8 {
        "8"
    } else {
        "9"
    };
    assert(r@ =~= seq![digit_char(d as nat)]);
    r
}

/// Appends the decimal numeral of `n` to `out`.
pub fn push_decimal(out: &mut String, n: u64)
    ensures
        final(out)@ == old(out)@ + decimal(n as nat),
    decreases n,
{
    if n >= 10 {
        push_decimal(out, n / 10);
    }
    out.append(digit_str(n % 10));
    assert(out@ =~= old(out)@ + decimal(n as nat));
}

/// Appends the decimal numeral of `i` to `out`, with its sign if it is negative.
pub fn push_signed_decimal(out: &mut String, i: i64)
    ensures
        final(out)@ == old(out)@ + signed_decimal(i as int),
{
    if i < 0 {
        out.append("-");
        proof {
            reveal_strlit("-");
        }
        let magnitude: u64 = (-(i + 1)) as u64 + 1;
        push_decimal(out, magnitude);
        assert(out@ =~= old(out)@ + signed_decimal(i as int));
    } else {
        push_decimal(out, i as u64);
    }
}

/// Appends `n` to `out` in at least two digits.
pub fn push_two_digits(out: &mut String, n: u64)
    ensures
        final(out)@ == old(out)@ + two_digits(n as nat),
{
    if n < 10 {
        out.append("0");
        proof {
            reveal_strlit("0");
        }
    }
    push_decimal(out, n);
    assert(out@ =~= old(out)@ + two_digits(n as nat));
}

/// A length of time in seconds as minutes and seconds: the minutes in full,
/// a colon, the seconds in two digits.
pub open spec fn duration_text(seconds: nat) -> Seq<char> {
    decimal(seconds / 60) + seq![':'] + two_digits(seconds % 60)
}

/// Appends a length of time to `out` as minutes and seconds.
pub fn push_duration(out: &mut String, seconds: u64)
    ensures
        final(out)@ == old(out)@ + duration_text(seconds as nat),
{
    push_decimal(out, seconds / 60);
    out.append(":");
    proof {
        reveal_strlit(":");
    }
    push_two_digits(out, seconds % 60);
    assert(out@ =~= old(out)@ + duration_text(seconds as nat));
}

/// Formats a length of time as minutes and seconds, as in `3:05`.
pub fn format_duration(seconds: u64) -> (text: String)
    ensures
        text@ == duration_text(seconds as nat),
{
    let mut text = String::new();
    push_duration(&mut text, seconds);
    assert(text@ =~= duration_text(seconds as nat));
    text
}

/// Whether `needle` occurs in `hay` as a run of consecutive characters.
pub open spec fn is_substring(needle: Seq<char>, hay: Seq<char>) -> bool {
    exists|start: int| occurs_at(needle, hay, start)
}

/// Whether `needle` stands in `hay` from position `start` on.
pub open spec fn occurs_at(needle: Seq<char>, hay: Seq<char>, start: int) -> bool {
    &&& 0 <= start
    &&& start + needle.len() <= hay.len()
    &&& hay.subrange(start, start + needle.len()) == needle
}

/// The characters of `s`, one by one.
pub fn chars_of(s: &str) -> (v: Vec<char>)
    ensures
        v@ == s@,
{
    let mut v: Vec<char> = Vec::new();
    for c in it: s.chars()
        invariant
            v@ == it.seq().take(it.index() as int),
            it.seq() == s@,
    {
        v.push(c);
    }
    v
}

fn matches_at(hay: &Vec<char>, needle: &Vec<char>, start: usize) -> (r: bool)
    requires
        start + needle.len() <= hay.len(),
    ensures
        r == occurs_at(needle@, hay@, start as int),
{
    let mut k: usize = 0;
    while k < needle.len()
        invariant
            k <= needle.len(),
            start + needle.len() <= hay.len(),
            forall|j: int| 0 <= j < k ==> hay@[start + j] == needle@[j],
        decreases needle.len() - k,
    {
        if hay[start + k] != needle[k] {
            assert(hay@.subrange(start as int, start + needle.len())[k as int] == hay@[start + k]);
            return false;
        }
        k += 1;
    }
    assert(hay@.subrange(start as int, start + needle.len()) =~= needle@);
    true
}

fn contains_chars(hay: &Vec<char>, needle: &Vec<char>) -> (found: bool)
    ensures
        found == is_substring(needle@, hay@),
{
    if needle.len() > hay.len() {
        return false;
    }
    let last: usize = hay.len() - needle.len();
    let mut start: usize = 0;
    loop
        invariant
            start <= last,
            last == hay.len() - needle.len(),
            forall|s: int| 0 <= s < start ==> !occurs_at(needle@, hay@, s),
        decreases last - start,
    {
        if matches_at(hay, needle, start) {
            return true;
        }
        if start == last {
            return false;
        }
        start += 1;
    }
}

/// Whether `needle` occurs somewhere in `hay`. The empty string occurs in
/// every string.
pub fn contains(hay: &str, needle: &str) -> (found: bool)
    ensures
        found == is_substring(needle@, hay@),
{
    let hay_chars = chars_of(hay);
    let needle_chars = chars_of(needle);
    contains_chars(&hay_chars, &needle_chars)
}

/// Whether two strings hold the same characters.
pub fn same_text(a: &str, b: &str) -> (same: bool)
    ensures
        same == (a@ == b@),
{
    let left = chars_of(a);
    let right = chars_of(b);
    if left.len() != right.len() {
        return false;
    }
    let mut k: usize = 0;
    while k < left.len()
        invariant
            k <= left.len(),
            left.len() == right.len(),
            left@ == a@,
            right@ == b@,
            forall|j: int| 0 <= j < k ==> left@[j] == right@[j],
        decreases left.len() - k,
    {
        if left[k] != right[k] {
            assert(a@[k as int] != b@[k as int]);
            return false;
        }
        k += 1;
    }
    assert(left@ =~= right@);
    true
}

/// Whether `a` comes before `b`, or equals it, when strings are ordered
/// character by character, a proper prefix before its extensions.
pub open spec fn text_le(a: Seq<char>, b: Seq<char>) -> bool
    decreases a.len(),
{
    if a.len() == 0 {
        true
    } else if b.len() == 0 {
        false
    } else if a[0] != b[0] {
        (a[0] as u32) < (b[0] as u32)
    } else {
        text_le(a.drop_first(), b.drop_first())
    }
}

/// The order of strings is transitive.
pub proof fn lemma_text_le_transitive(a: Seq<char>, b: Seq<char>, c: Seq<char>)
    requires
        text_le(a, b),
        text_le(b, c),
    ensures
        text_le(a, c),
    decreases a.len(),
{
    if a.len() > 0 && b.len() > 0 && c.len() > 0 && a[0] == b[0] && b[0] == c[0] {
        lemma_text_le_transitive(a.drop_first(), b.drop_first(), c.drop_first());
    }
}

/// Whether `a` comes before `b` or equals it in the order of strings.
pub fn precedes(a: &str, b: &str) -> (before: bool)
    ensures
        before == text_le(a@, b@),
{
    let left = chars_of(a);
    let right = chars_of(b);
    let mut k: usize = 0;
    assert(a@.skip(0) =~= a@ && b@.skip(0) =~= b@);
    while k < left.len() && k < right.len()
        invariant
            k <= left.len(),
            k <= right.len(),
            left@ == a@,
            right@ == b@,
            text_le(a@, b@) == text_le(a@.skip(k as int), b@.skip(k as int)),
        decreases left.len() - k,
    {
        if left[k] != right[k] {
            return (left[k] as u32) < (right[k] as u32);
        }
        proof {
            assert(a@.skip(k as int).drop_first() =~= a@.skip(k + 1));
            assert(b@.skip(k as int).drop_first() =~= b@.skip(k + 1));
        }
        k += 1;
    }
    k == left.len()
}

/// The lower-case form of a string as the standard library computes it, by
/// the Unicode case mappings.
pub uninterp spec fn lowercase(s: Seq<char>) -> Seq<char>;

/// Calls `str::to_lowercase`. The contract gives its result the name
/// `lowercase`: the call depends on its argument alone.
#[verifier::external_body]
pub(crate) fn to_lowercase(s: &str) -> (r: String)
    ensures
        r@ == lowercase(s@),
{
    s.to_lowercase()
}

} // verus!
