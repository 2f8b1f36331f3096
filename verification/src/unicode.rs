//! The Unicode character properties and case mappings the parsers rely on.
//!
//! What the standard library computes from the Unicode tables is named here
//! rather than restated: each name is what the standard function returns,
//! and beside it stands only what its documentation says of the ASCII range.

use vstd::prelude::*;
use crate::strings::{lower, lower_char, upper_char};

verus! {

/// Whether `c` has the Unicode `White_Space` property.
pub uninterp spec fn unicode_whitespace(c: char) -> bool;

/// Whether `c` has the Unicode `Alphabetic` property.
pub uninterp spec fn unicode_alphabetic(c: char) -> bool;

/// The full lower-case mapping of `c`: one or more characters.
pub uninterp spec fn unicode_lower(c: char) -> Seq<char>;

/// The full upper-case mapping of `c`: one or more characters.
pub uninterp spec fn unicode_upper(c: char) -> Seq<char>;

/// The lower-case form of a whole string, which for a few characters (a
/// final sigma) depends on what surrounds them.
pub uninterp spec fn unicode_lower_str(s: Seq<char>) -> Seq<char>;

/// Whether `c` is white space. Of the ASCII characters exactly tab, line
/// feed, vertical tab, form feed, carriage return and space are.
pub open spec fn white_space(c: char) -> bool {
    if (c as u32) < 128 {
        c == ' ' || ('\t' <= c && c <= '\r')
    } else {
        unicode_whitespace(c)
    }
}

/// Whether `c` is alphabetic. Of the ASCII characters exactly the letters
/// are.
pub open spec fn alphabetic(c: char) -> bool {
    if (c as u32) < 128 {
        ('a' <= c && c <= 'z') || ('A' <= c && c <= 'Z')
    } else {
        unicode_alphabetic(c)
    }
}

/// The lower-case mapping of `c`. An ASCII character maps to its ASCII
/// lower case.
pub open spec fn lower_of(c: char) -> Seq<char> {
    if (c as u32) < 128 {
        seq![lower_char(c)]
    } else {
        unicode_lower(c)
    }
}

/// The upper-case mapping of `c`. An ASCII character maps to its ASCII
/// upper case.
pub open spec fn upper_of(c: char) -> Seq<char> {
    if (c as u32) < 128 {
        seq![upper_char(c)]
    } else {
        unicode_upper(c)
    }
}

/// Whether every character of `s` is ASCII.
pub open spec fn all_ascii(s: Seq<char>) -> bool {
    forall|i: int| 0 <= i < s.len() ==> (s[i] as u32) < 128
}

/// The lower-case form of `s`. An ASCII string maps to its ASCII lower case.
pub open spec fn lower_text(s: Seq<char>) -> Seq<char> {
    if all_ascii(s) {
        lower(s)
    } else {
        unicode_lower_str(s)
    }
}

/// `char::is_whitespace`: whether `c` has the `White_Space` property. Of the
/// ASCII characters exactly tab, line feed, vertical tab, form feed, carriage
/// return and space have it.
#[verifier::external_body]
pub(crate) fn is_whitespace(c: char) -> (r: bool)
    ensures
        (c as u32) < 128 ==> (r <==> (c == ' ' || ('\t' <= c && c <= '\r'))),
        (c as u32) >= 128 ==> r == unicode_whitespace(c),
{
    c.is_whitespace()
}

/// `char::is_alphabetic`: whether `c` has the `Alphabetic` property. Of the
/// ASCII characters exactly the letters have it.
#[verifier::external_body]
pub(crate) fn is_alphabetic(c: char) -> (r: bool)
    ensures
        (c as u32) < 128 ==> (r <==> (('a' <= c && c <= 'z') || ('A' <= c && c <= 'Z'))),
        (c as u32) >= 128 ==> r == unicode_alphabetic(c),
{
    c.is_alphabetic()
}

/// `char::to_lowercase`, collected: the lower-case mapping of `c`. An ASCII
/// character maps to its ASCII lower case.
#[verifier::external_body]
pub(crate) fn char_to_lowercase(c: char) -> (r: String)
    ensures
        (c as u32) < 128 ==> r@ == seq![lower_char(c)],
        (c as u32) >= 128 ==> r@ == unicode_lower(c),
{
    c.to_lowercase().collect()
}

/// `char::to_uppercase`, collected: the upper-case mapping of `c`. An ASCII
/// character maps to its ASCII upper case.
#[verifier::external_body]
pub(crate) fn char_to_uppercase(c: char) -> (r: String)
    ensures
        (c as u32) < 128 ==> r@ == seq![upper_char(c)],
        (c as u32) >= 128 ==> r@ == unicode_upper(c),
{
    c.to_uppercase().collect()
}

/// `str::to_lowercase`: the lower-case form of `s`. An ASCII string maps to
/// its ASCII lower case.
#[verifier::external_body]
pub(crate) fn str_to_lowercase(s: &str) -> (r: String)
    ensures
        all_ascii(s@) ==> r@ == lower(s@),
        !all_ascii(s@) ==> r@ == unicode_lower_str(s@),
{
    s.to_lowercase()
}

/// `s` without the white space at its start.
pub open spec fn trim_start_ws(s: Seq<char>) -> Seq<char>
    decreases s.len(),
{
    if s.len() > 0 && white_space(s[0]) {
        trim_start_ws(s.drop_first())
    } else {
        s
    }
}

/// `s` without the white space at its end.
pub open spec fn trim_end_ws(s: Seq<char>) -> Seq<char>
    decreases s.len(),
{
    if s.len() > 0 && white_space(s.last()) {
        trim_end_ws(s.drop_last())
    } else {
        s
    }
}

/// `s` without white space at either end (`str::trim`).
pub open spec fn trim_ws(s: Seq<char>) -> Seq<char> {
    trim_end_ws(trim_start_ws(s))
}

/// Where the text of `s[from..to]` starts and ends once the white space at
/// either end is gone.
pub fn trim_bounds(s: &[char], from: usize, to: usize) -> (r: (usize, usize))
    requires
        from <= to <= s@.len(),
    ensures
        from <= r.0 <= r.1 <= to,
        s@.subrange(r.0 as int, r.1 as int) == trim_ws(s@.subrange(from as int, to as int)),
{
    let ghost whole = s@.subrange(from as int, to as int);
    let mut a = from;
    while a < to && is_whitespace(s[a])
        invariant
            from <= a <= to <= s@.len(),
            whole == s@.subrange(from as int, to as int),
            trim_start_ws(s@.subrange(a as int, to as int)) == trim_start_ws(whole),
        decreases to - a,
    {
        assert(s@.subrange(a as int, to as int).drop_first() =~= s@.subrange(a + 1, to as int));
        a = a + 1;
    }
    let ghost started = s@.subrange(a as int, to as int);
    assert(trim_start_ws(started) == started);
    let mut b = to;
    while b > a && is_whitespace(s[b - 1])
        invariant
            from <= a <= b <= to <= s@.len(),
            started == s@.subrange(a as int, to as int),
            trim_end_ws(s@.subrange(a as int, b as int)) == trim_end_ws(started),
        decreases b - a,
    {
        assert(s@.subrange(a as int, b as int).drop_last() =~= s@.subrange(a as int, b - 1));
        b = b - 1;
    }
    (a, b)
}

pub(crate) proof fn lemma_trim_start_plain(s: Seq<char>)
    ensures
        exists|i: int| 0 <= i <= s.len() && trim_start_ws(s) == s.skip(i),
        trim_start_ws(s).len() > 0 ==> !white_space(trim_start_ws(s)[0]),
    decreases s.len(),
{
    if s.len() > 0 && white_space(s[0]) {
        lemma_trim_start_plain(s.drop_first());
        let i = choose|i: int| 0 <= i <= s.drop_first().len() && trim_start_ws(s.drop_first()) == s.drop_first().skip(i);
        assert(s.drop_first().skip(i) =~= s.skip(i + 1));
    } else {
        assert(s.skip(0) =~= s);
    }
}

pub(crate) proof fn lemma_trim_end_plain(s: Seq<char>)
    ensures
        exists|j: int| 0 <= j <= s.len() && trim_end_ws(s) == s.take(j),
        trim_end_ws(s).len() > 0 ==> !white_space(trim_end_ws(s).last()),
    decreases s.len(),
{
    if s.len() > 0 && white_space(s.last()) {
        lemma_trim_end_plain(s.drop_last());
        let j = choose|j: int| 0 <= j <= s.drop_last().len() && trim_end_ws(s.drop_last()) == s.drop_last().take(j);
        assert(s.drop_last().take(j) =~= s.take(j));
    } else {
        assert(s.take(s.len() as int) =~= s);
    }
}

/// What trimming keeps: ASCII text stays ASCII, and what is left neither
/// starts nor ends with white space.
pub(crate) proof fn lemma_trim_ws_plain(s: Seq<char>)
    ensures
        all_ascii(s) ==> all_ascii(trim_ws(s)),
        trim_ws(s).len() > 0 ==> !white_space(trim_ws(s)[0]) && !white_space(trim_ws(s).last()),
{
    let a = trim_start_ws(s);
    lemma_trim_start_plain(s);
    lemma_trim_end_plain(a);
    let i = choose|i: int| 0 <= i <= s.len() && a == s.skip(i);
    let j = choose|j: int| 0 <= j <= a.len() && trim_end_ws(a) == a.take(j);
    if all_ascii(s) {
        assert forall|k: int| 0 <= k < trim_ws(s).len() implies (trim_ws(s)[k] as u32) < 128 by {
            assert(trim_ws(s)[k] == s[i + k]);
        }
    }
    if trim_ws(s).len() > 0 {
        assert(trim_ws(s)[0] == a[0]);
    }
}

} // verus!
