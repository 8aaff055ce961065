//! Character-level helpers shared by the rest of the crate.
//!
//! All positions in this crate count Unicode scalar values, never bytes.
//! The helpers here turn `&str` values into character sequences, cut
//! character ranges out of them, count words and render decimal numbers.

use vstd::prelude::*;
use vstd::string::*;

verus! {

/// Whether `c` is one of the six whitespace characters of ASCII: the blank,
/// and the five from tab (U+0009) to carriage return (U+000D).
pub open spec fn is_ascii_whitespace(c: char) -> bool {
    c == ' ' || 0x09 <= c as u32 <= 0x0d
}

/// For a character beyond ASCII: whether Unicode gives it the `White_Space`
/// property, as `char::is_whitespace` reports it.
pub uninterp spec fn is_unicode_whitespace(c: char) -> bool;

/// Whether `c` belongs to the whitespace class of the standard library:
/// the characters with the Unicode `White_Space` property. Within ASCII
/// these are the six of [`is_ascii_whitespace`]; beyond ASCII the class is
/// whatever `char::is_whitespace` reports.
pub open spec fn is_whitespace_char(c: char) -> bool {
    if c as u32 <= 0x7f {
        is_ascii_whitespace(c)
    } else {
        is_unicode_whitespace(c)
    }
}

/// `char::is_whitespace` decides membership in the whitespace class.
/// Trusted: within ASCII exactly the blank and the characters from tab to
/// carriage return are whitespace; beyond ASCII the result is a function of
/// the character alone, named [`is_unicode_whitespace`].
pub assume_specification[ char::is_whitespace ](c: char) -> (b: bool)
    ensures
        c as u32 <= 0x7f ==> b == is_ascii_whitespace(c),
        c as u32 > 0x7f ==> b == is_unicode_whitespace(c),
;

/// `String::push` appends one character at the end. Trusted.
pub assume_specification[ String::push ](s: &mut String, ch: char)
    ensures
        final(s)@ == old(s)@.push(ch),
;

/// `String::pop` removes and returns the last character, or returns `None`
/// and leaves an empty string as it is. Trusted.
pub assume_specification[ String::pop ](s: &mut String) -> (r: Option<char>)
    ensures
        old(s)@.len() == 0 ==> r.is_none() && final(s)@ == old(s)@,
        old(s)@.len() > 0 ==> r == Some(old(s)@.last()) && final(s)@ == old(s)@.drop_last(),
;

/// `String::clear` removes every character. Trusted.
pub assume_specification[ String::clear ](s: &mut String)
    ensures
        final(s)@ == Seq::<char>::empty(),
;

/// The characters of `s`, in order.
pub fn chars_of(s: &str) -> (v: Vec<char>)
    ensures
        v@ == s@,
{
    let mut v: Vec<char> = Vec::new();
    for c in it: s.chars()
        invariant
            it.seq() == s@,
            v@ == it.seq().take(it.index() as int),
    {
        v.push(c);
    }
    v
}

/// The part of `s` between character positions `from` and `to`, after both
/// have been clamped to the sequence: `to` to the length, `from` to `to`.
pub open spec fn clamped_subrange(s: Seq<char>, from: int, to: int) -> Seq<char>
    recommends
        0 <= from,
        0 <= to,
{
    let hi = if to < s.len() { to } else { s.len() as int };
    let lo = if from < hi { from } else { hi };
    s.subrange(lo, hi)
}

/// Cuts the characters `[from, to)` out of `s`, counting characters and not
/// bytes. Positions past the end are clamped, so the call never fails.
pub fn char_slice(s: &str, from: usize, to: usize) -> (r: String)
    ensures
        r@ == clamped_subrange(s@, from as int, to as int),
{
    let n = s.unicode_len();
    let hi = if to < n { to } else { n };
    let lo = if from < hi { from } else { hi };
    s.substring_char(lo, hi).to_owned()
}

/// The decimal digit for `d`, for `d` below ten.
pub open spec fn digit_char(d: nat) -> char
    recommends
        d < 10,
{
    if d == 0 {
        '0'
    } else if d == 1 {
        '1'
    } else if d == 2 {
        '2'
    } else if d == 3 {
        '3'
    } else if d == 4 {
        '4'
    } else if d == 5 {
        '5'
    } else if d == 6 {
        '6'
    } else if d == 7 {
        '7'
    } else if d == 8 {
        '8'
    } else {
        '9'
    }
}

/// The decimal numeral of `n`, without sign or leading zeros.
pub open spec fn decimal(n: nat) -> Seq<char>
    decreases n,
{
    if n < 10 {
        seq![digit_char(n)]
    } else {
        decimal(n / 10).push(digit_char(n % 10))
    }
}

fn digit(d: usize) -> (c: char)
    requires
        d < 10,
    ensures
        c == digit_char(d as nat),
{
    if d == 0 {
        '0'
    } else if d == 1 {
        '1'
    } else if d == 2 {
        '2'
    } else if d == 3 {
        '3'
    } else if d == 4 {
        '4'
    } else if d == 5 {
        '5'
    } else if d == 6 {
        '6'
    } else if d == 7 {
        '7'
    } else if d == 8 {
        '8'
    } else {
        '9'
    }
}

/// Appends the decimal numeral of `n` to `out`.
pub fn push_decimal(out: &mut String, n: usize)
    ensures
        final(out)@ == old(out)@ + decimal(n as nat),
    decreases n,
{
    if n >= 10 {
        push_decimal(out, n / 10);
    }
    out.push(digit(n % 10));
    assert(final(out)@ =~= old(out)@ + decimal(n as nat));
}

/// Whether a word begins at position `i` of `s`: a character outside the
/// whitespace class that stands first or follows a whitespace character.
pub open spec fn starts_word(s: Seq<char>, i: int) -> bool {
    &&& 0 <= i < s.len()
    &&& !is_whitespace_char(s[i])
    &&& (i == 0 || is_whitespace_char(s[i - 1]))
}

/// The number of word beginnings among the first `n` positions of `s`.
pub open spec fn word_starts_before(s: Seq<char>, n: nat) -> nat
    decreases n,
{
    if n == 0 {
        0
    } else {
        word_starts_before(s, (n - 1) as nat) + if starts_word(s, n - 1) {
            1nat
        } else {
            0nat
        }
    }
}

/// The number of maximal runs of non-whitespace characters in `s`.
pub open spec fn word_count_of(s: Seq<char>) -> nat {
    word_starts_before(s, s.len())
}

/// There are never more word beginnings than positions.
pub proof fn lemma_word_starts_bounded(s: Seq<char>, n: nat)
    ensures
        word_starts_before(s, n) <= n,
    decreases n,
{
    if n > 0 {
        lemma_word_starts_bounded(s, (n - 1) as nat);
    }
}

/// Counts the whitespace-separated words of `s`.
pub fn count_words(s: &str) -> (n: usize)
    ensures
        n == word_count_of(s@),
{
    let total = s.unicode_len();
    let mut count: usize = 0;
    let mut after_space = true;
    for c in it: s.chars()
        invariant
            it.seq() == s@,
            total == s@.len(),
            count == word_starts_before(s@, it.index() as nat),
            after_space == (it.index() == 0 || is_whitespace_char(s@[it.index() - 1])),
    {
        proof {
            lemma_word_starts_bounded(s@, it.index() as nat);
        }
        let space = c.is_whitespace();
        if !space && after_space {
            count += 1;
        }
        after_space = space;
    }
    count
}

} // verus!
