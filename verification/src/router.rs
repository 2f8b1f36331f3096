//! The part of a router that has nothing to do with a browser.
//!
//! Two jobs. Matching a path against the application's routes, which is
//! ordinary. And keeping track of which history entry the user is on, which is
//! not: a guard that refuses a back has to put the user back where they were,
//! and the browser gives it one move to do it with.

use vstd::prelude::*;
use crate::strings::{
    chars_eq_str, chars_of, chars_start_with, push_char, push_chars, push_str, starts_with, str_eq,
    string_from_utf8, string_of, take_chars,
};
use vstd::utf8::{decode_utf8, encode_utf8, valid_utf8};

verus! {

// ------------------------------------------------------------------ paths

/// `s` without the slashes at its end.
pub open spec fn trim_end_slashes(s: Seq<char>) -> Seq<char>
    decreases s.len(),
{
    if s.len() > 0 && s.last() == '/' {
        trim_end_slashes(s.drop_last())
    } else {
        s
    }
}

/// A leading slash, no trailing one, and never empty.
pub open spec fn normalised(path: Seq<char>) -> Seq<char> {
    let t = trim_end_slashes(path);
    if t.len() == 0 {
        seq!['/']
    } else if t[0] == '/' {
        t
    } else {
        seq!['/'] + t
    }
}

/// How many characters of `s` are left once the slashes at its end are gone.
fn trimmed_len(s: &[char]) -> (n: usize)
    ensures
        n <= s@.len(),
        s@.take(n as int) == trim_end_slashes(s@),
{
    let mut n = s.len();
    assert(s@.take(n as int) =~= s@);
    while n > 0 && s[n - 1] == '/'
        invariant
            n <= s@.len(),
            trim_end_slashes(s@.take(n as int)) == trim_end_slashes(s@),
        decreases n,
    {
        assert(s@.take(n as int).drop_last() =~= s@.take(n - 1));
        n = n - 1;
    }
    n
}

/// `path` with a leading slash, no trailing one, and never empty.
fn normalise(path: &str) -> (r: String)
    ensures
        r@ == normalised(path@),
{
    let cs = chars_of(path);
    let n = trimmed_len(cs.as_slice());
    let mut out = String::new();
    let lead = n == 0 || cs[0] != '/';
    if lead {
        push_char(&mut out, '/');
    }
    push_chars(&mut out, cs.as_slice(), 0, n);
    proof {
        let t = trim_end_slashes(path@);
        assert(cs@.subrange(0, n as int) =~= t);
        if n > 0 {
            assert(t[0] == cs@[0]);
        }
        if lead {
            if n == 0 {
                assert(out@ =~= seq!['/']);
            } else {
                assert(out@ =~= seq!['/'] + t);
            }
        } else {
            assert(out@ =~= t);
        }
    }
    out
}

/// The runs of `s` between slashes, from position `i` on, where `cur` is the
/// run already begun. Empty runs are dropped.
pub open spec fn words_from(s: Seq<char>, i: int, cur: Seq<char>) -> Seq<Seq<char>>
    decreases s.len() - i,
{
    if i >= s.len() {
        finished(cur)
    } else if s[i] == '/' {
        finished(cur) + words_from(s, i + 1, Seq::empty())
    } else {
        words_from(s, i + 1, cur.push(s[i]))
    }
}

/// A run that ended: nothing when it was empty.
pub open spec fn finished(cur: Seq<char>) -> Seq<Seq<char>> {
    if cur.len() == 0 {
        Seq::empty()
    } else {
        seq![cur]
    }
}

/// The non-empty pieces of `s` between slashes, in order.
pub open spec fn words(s: Seq<char>) -> Seq<Seq<char>> {
    words_from(s, 0, Seq::empty())
}

spec fn views(v: Seq<Vec<char>>) -> Seq<Seq<char>> {
    v.map_values(|w: Vec<char>| w@)
}

/// The non-empty pieces of `s` between slashes.
fn split_words(s: &[char]) -> (r: Vec<Vec<char>>)
    ensures
        views(r@) == words(s@),
{
    let mut out: Vec<Vec<char>> = Vec::new();
    let mut cur: Vec<char> = Vec::new();
    let mut i: usize = 0;
    assert(views(out@) =~= Seq::empty());
    assert(views(out@) + words_from(s@, 0, cur@) =~= words(s@));
    while i < s.len()
        invariant
            i <= s@.len(),
            views(out@) + words_from(s@, i as int, cur@) == words(s@),
        decreases s@.len() - i,
    {
        let ghost before = views(out@);
        let ghost c = cur@;
        if s[i] == '/' {
            if cur.len() > 0 {
                out.push(cur);
                cur = Vec::new();
                assert(views(out@) =~= before + seq![c]);
            } else {
                assert(cur@ =~= Seq::<char>::empty());
                assert(finished(c) =~= Seq::<Seq<char>>::empty());
            }
            assert(views(out@) + words_from(s@, i + 1, cur@) =~= before + (finished(c) + words_from(s@, i + 1, Seq::empty())));
        } else {
            cur.push(s[i]);
        }
        i = i + 1;
    }
    if cur.len() > 0 {
        let ghost before = views(out@);
        let ghost c = cur@;
        out.push(cur);
        assert(views(out@) =~= before + seq![c]);
    } else {
        assert(views(out@) + finished(cur@) =~= views(out@));
    }
    out
}

// ------------------------------------------------------------- locations

/// Where the application is, as the router understands it.
#[derive(Clone, Debug, PartialEq, Eq)]
pub struct Location {
    /// Without the base, and always starting with `/`.
    pub path: String,
    /// Everything from `?` onwards, or empty. Handed over as it arrived: what
    /// a query means is the application's business.
    pub search: String,
}

impl Default for Location {
    fn default() -> (r: Location)
        ensures
            r.path@ == Seq::<char>::empty(),
            r.search@ == Seq::<char>::empty(),
    {
        Location { path: String::new(), search: String::new() }
    }
}

impl Location {
    pub fn new(path: &str, search: &str) -> (r: Location)
        ensures
            r.path@ == normalised(path@),
            r.search@ == search@,
    {
        Location { path: normalise(path), search: search.to_owned() }
    }

    /// Path and query as they appear in the address bar, under `base`.
    pub fn href(&self, base: &str) -> (r: String)
        ensures
            r@ == trim_end_slashes(base@) + self.path@ + self.search@,
    {
        let cs = chars_of(base);
        let n = trimmed_len(cs.as_slice());
        let mut out = String::new();
        push_chars(&mut out, cs.as_slice(), 0, n);
        push_str(&mut out, self.path.as_str());
        push_str(&mut out, self.search.as_str());
        proof {
            assert(cs@.subrange(0, n as int) =~= trim_end_slashes(base@));
            assert(out@ =~= trim_end_slashes(base@) + self.path@ + self.search@);
        }
        out
    }
}

/// What is left of `path` under `base`: `None` when `path` is not under it.
pub open spec fn under_base(base: Seq<char>, path: Seq<char>) -> Option<Seq<char>> {
    let b = trim_end_slashes(base);
    if b.len() == 0 {
        Some(path)
    } else if !starts_with(path, b) {
        None
    } else {
        let rest = path.skip(b.len() as int);
        if rest.len() == 0 {
            Some(seq!['/'])
        } else if rest[0] == '/' {
            Some(rest)
        } else {
            None
        }
    }
}

/// A path with `base` taken off the front, or `None` when it is not under it.
/// `/tools/demo-other` is not under `/tools/demo`.
pub fn strip_base<'a>(base: &str, path: &'a str) -> (r: Option<&'a str>)
    ensures
        match r {
            Some(rest) => under_base(base@, path@) == Some(rest@),
            None => under_base(base@, path@) is None,
        },
{
    let bc = chars_of(base);
    let n = trimmed_len(bc.as_slice());
    if n == 0 {
        return Some(path);
    }
    let prefix = take_chars(bc.as_slice(), n);
    let pc = chars_of(path);
    if !chars_start_with(pc.as_slice(), prefix.as_slice()) {
        return None;
    }
    let len = pc.len();
    let rest = path.substring_char(n, len);
    assert(rest@ =~= path@.skip(n as int));
    if n == len {
        let root = "/";
        proof {
            reveal_strlit("/");
        }
        Some(root)
    } else if pc[n] == '/' {
        Some(rest)
    } else {
        None
    }
}


// --------------------------------------------------------------- params

/// The value each name last bound to, as a map. Where a name occurs twice in
/// `s` the first occurrence is the one that counts; `Params` never holds a
/// name twice.
pub open spec fn first_wins(s: Seq<(Seq<char>, Seq<char>)>) -> Map<Seq<char>, Seq<char>>
    decreases s.len(),
{
    if s.len() == 0 {
        Map::empty()
    } else {
        first_wins(s.drop_first()).insert(s[0].0, s[0].1)
    }
}

pub open spec fn pair_views(s: Seq<(String, String)>) -> Seq<(Seq<char>, Seq<char>)> {
    s.map_values(|p: (String, String)| (p.0@, p.1@))
}

proof fn lemma_first_wins_lookup(s: Seq<(Seq<char>, Seq<char>)>, j: int)
    requires
        0 <= j < s.len(),
        forall|i: int| 0 <= i < j ==> s[i].0 != s[j].0,
    ensures
        first_wins(s).contains_key(s[j].0),
        first_wins(s)[s[j].0] == s[j].1,
    decreases j,
{
    if j > 0 {
        let t = s.drop_first();
        assert forall|i: int| 0 <= i < j - 1 implies #[trigger] t[i].0 != t[j - 1].0 by {
            assert(t[i] == s[i + 1]);
        }
        lemma_first_wins_lookup(t, j - 1);
    }
}

proof fn lemma_first_wins_absent(s: Seq<(Seq<char>, Seq<char>)>, k: Seq<char>)
    requires
        forall|i: int| 0 <= i < s.len() ==> s[i].0 != k,
    ensures
        !first_wins(s).contains_key(k),
    decreases s.len(),
{
    if s.len() > 0 {
        let t = s.drop_first();
        assert forall|i: int| 0 <= i < t.len() implies t[i].0 != k by {
            assert(t[i] == s[i + 1]);
        }
        lemma_first_wins_absent(t, k);
    }
}

proof fn lemma_first_wins_update(s: Seq<(Seq<char>, Seq<char>)>, j: int, v: Seq<char>)
    requires
        0 <= j < s.len(),
        forall|i: int| 0 <= i < j ==> s[i].0 != s[j].0,
    ensures
        first_wins(s.update(j, (s[j].0, v))) == first_wins(s).insert(s[j].0, v),
    decreases j,
{
    let k = s[j].0;
    let u = s.update(j, (k, v));
    if j == 0 {
        assert(u.drop_first() =~= s.drop_first());
        assert(first_wins(u) =~= first_wins(s).insert(k, v));
    } else {
        let t = s.drop_first();
        assert forall|i: int| 0 <= i < j - 1 implies #[trigger] t[i].0 != t[j - 1].0 by {
            assert(t[i] == s[i + 1]);
        }
        lemma_first_wins_update(t, j - 1, v);
        assert(u.drop_first() =~= t.update(j - 1, (k, v)));
        assert(s[0].0 != k);
        assert(first_wins(u) =~= first_wins(s).insert(k, v));
    }
}

proof fn lemma_first_wins_push(s: Seq<(Seq<char>, Seq<char>)>, k: Seq<char>, v: Seq<char>)
    requires
        forall|i: int| 0 <= i < s.len() ==> s[i].0 != k,
    ensures
        first_wins(s.push((k, v))) == first_wins(s).insert(k, v),
    decreases s.len(),
{
    let u = s.push((k, v));
    if s.len() == 0 {
        assert(u.drop_first() =~= Seq::<(Seq<char>, Seq<char>)>::empty());
        assert(u[0] == (k, v));
        assert(first_wins(u.drop_first()) =~= Map::<Seq<char>, Seq<char>>::empty());
        assert(first_wins(u) =~= first_wins(s).insert(k, v));
    } else {
        let t = s.drop_first();
        assert forall|i: int| 0 <= i < t.len() implies t[i].0 != k by {
            assert(t[i] == s[i + 1]);
        }
        lemma_first_wins_push(t, k, v);
        assert(u.drop_first() =~= t.push((k, v)));
        assert(s[0].0 != k);
        assert(first_wins(u) =~= first_wins(s).insert(k, v));
    }
}

/// The parameters a match bound, by name.
#[derive(Clone, Debug, PartialEq, Eq)]
pub struct Params {
    entries: Vec<(String, String)>,
}

impl View for Params {
    type V = Map<Seq<char>, Seq<char>>;

    closed spec fn view(&self) -> Map<Seq<char>, Seq<char>> {
        first_wins(pair_views(self.entries@))
    }
}

impl Default for Params {
    fn default() -> (r: Params)
        ensures
            r@ == Map::<Seq<char>, Seq<char>>::empty(),
    {
        Params::new()
    }
}

impl Params {
    pub fn new() -> (r: Params)
        ensures
            r@ == Map::<Seq<char>, Seq<char>>::empty(),
    {
        let r = Params { entries: Vec::new() };
        assert(pair_views(r.entries@) =~= Seq::empty());
        r
    }

    /// Where the first entry named `name` sits, if one does.
    fn position(&self, name: &str) -> (r: Option<usize>)
        ensures
            match r {
                Some(j) => j < self.entries@.len() && pair_views(self.entries@)[j as int].0 == name@
                    && forall|i: int| 0 <= i < j ==> pair_views(self.entries@)[i].0 != name@,
                None => forall|i: int| 0 <= i < self.entries@.len() ==> pair_views(self.entries@)[i].0 != name@,
            },
    {
        let mut i: usize = 0;
        while i < self.entries.len()
            invariant
                i <= self.entries@.len(),
                forall|k: int| 0 <= k < i ==> pair_views(self.entries@)[k].0 != name@,
            decreases self.entries@.len() - i,
        {
            if str_eq(self.entries[i].0.as_str(), name) {
                return Some(i);
            }
            i = i + 1;
        }
        None
    }

    /// The value bound to `name`, if any.
    pub fn get(&self, name: &str) -> (r: Option<&String>)
        ensures
            match r {
                Some(v) => self@.contains_key(name@) && self@[name@] == v@,
                None => !self@.contains_key(name@),
            },
    {
        match self.position(name) {
            Some(j) => {
                proof {
                    lemma_first_wins_lookup(pair_views(self.entries@), j as int);
                }
                Some(&self.entries[j].1)
            },
            None => {
                proof {
                    lemma_first_wins_absent(pair_views(self.entries@), name@);
                }
                None
            },
        }
    }

    /// Binds `name` to `value`, in place of what it was bound to.
    pub fn insert(&mut self, name: String, value: String)
        ensures
            final(self)@ == old(self)@.insert(name@, value@),
    {
        let ghost before = pair_views(self.entries@);
        match self.position(name.as_str()) {
            Some(j) => {
                let ghost v = value@;
                self.entries.set(j, (name, value));
                proof {
                    lemma_first_wins_update(before, j as int, v);
                    assert(pair_views(self.entries@) =~= before.update(j as int, (before[j as int].0, v)));
                }
            },
            None => {
                let ghost k = name@;
                let ghost v = value@;
                self.entries.push((name, value));
                proof {
                    lemma_first_wins_push(before, k, v);
                    assert(pair_views(self.entries@) =~= before.push((k, v)));
                }
            },
        }
    }

}

// -------------------------------------------------------------- decoding

/// The value of one base-16 digit, either case.
pub open spec fn hex_digit(b: u8) -> Option<u8> {
    if 48 <= b <= 57 {
        Some((b - 48) as u8)
    } else if 97 <= b <= 102 {
        Some((b - 87) as u8)
    } else if 65 <= b <= 70 {
        Some((b - 55) as u8)
    } else {
        None
    }
}

/// The byte that the two characters after a `%` spell, read as a base-16
/// number the way the standard parser reads one: an optional `+` sign, then
/// the digits.
pub open spec fn escape_value(hi: u8, lo: u8) -> Option<u8> {
    if hi == 43 {
        hex_digit(lo)
    } else {
        match (hex_digit(hi), hex_digit(lo)) {
            (Some(h), Some(l)) => Some((16 * h + l) as u8),
            _ => None,
        }
    }
}

/// `b` from position `i` on, with each `%` followed by an escape that spells
/// a byte replaced by that byte. A `%` that does not start one stays.
pub open spec fn unescaped_from(b: Seq<u8>, i: int) -> Seq<u8>
    decreases b.len() - i,
{
    if i >= b.len() {
        Seq::empty()
    } else if b[i] == 37 && i + 2 < b.len() && escape_value(b[i + 1], b[i + 2]) is Some {
        seq![escape_value(b[i + 1], b[i + 2])->0] + unescaped_from(b, i + 3)
    } else {
        seq![b[i]] + unescaped_from(b, i + 1)
    }
}

/// A path piece with its percent-escapes decoded; the piece as it stands
/// when what they spell is not UTF-8.
pub open spec fn decoded(piece: Seq<char>) -> Seq<char> {
    let out = unescaped_from(encode_utf8(piece), 0);
    if valid_utf8(out) {
        decode_utf8(out)
    } else {
        piece
    }
}

/// The sixteen digits of base 16 in upper case, as `encodeURIComponent`
/// writes them.
pub open spec fn upper_hex_digits() -> Seq<char> {
    seq!['0', '1', '2', '3', '4', '5', '6', '7', '8', '9', 'A', 'B', 'C', 'D', 'E', 'F']
}

/// The sixteen digits of base 16 in lower case.
pub open spec fn lower_hex_digits() -> Seq<char> {
    seq!['0', '1', '2', '3', '4', '5', '6', '7', '8', '9', 'a', 'b', 'c', 'd', 'e', 'f']
}

/// `%` and the two digits that spell `b` in base 16, from `digits`.
pub open spec fn escape_of(b: u8, digits: Seq<char>) -> Seq<u8> {
    seq![37u8, digits[(b / 16) as int] as u8, digits[(b % 16) as int] as u8]
}

proof fn lemma_hex_digit_values(d: int)
    requires
        0 <= d < 16,
    ensures
        hex_digit(upper_hex_digits()[d] as u8) == Some(d as u8),
        hex_digit(lower_hex_digits()[d] as u8) == Some(d as u8),
        upper_hex_digits()[d] != '+' && lower_hex_digits()[d] != '+',
{
    if d < 8 {
        if d < 4 {
            if d < 2 { if d == 0 {} else {} } else { if d == 2 {} else {} }
        } else {
            if d < 6 { if d == 4 {} else {} } else { if d == 6 {} else {} }
        }
    } else {
        if d < 12 {
            if d < 10 { if d == 8 {} else {} } else { if d == 10 {} else {} }
        } else {
            if d < 14 { if d == 12 {} else {} } else { if d == 14 {} else {} }
        }
    }
}

/// Escapes read in either case: every byte written as `%` and two base-16
/// digits, upper case or lower case, decodes to that byte.
pub proof fn law_an_escape_reads_in_either_case(b: u8)
    ensures
        unescaped_from(escape_of(b, upper_hex_digits()), 0) == seq![b],
        unescaped_from(escape_of(b, lower_hex_digits()), 0) == seq![b],
{
    let hi = b / 16;
    let lo = b % 16;
    lemma_hex_digit_values(hi as int);
    lemma_hex_digit_values(lo as int);
    let u = escape_of(b, upper_hex_digits());
    let l = escape_of(b, lower_hex_digits());
    assert(unescaped_from(u, 3) == Seq::<u8>::empty());
    assert(unescaped_from(l, 3) == Seq::<u8>::empty());
    assert(seq![b] + Seq::<u8>::empty() =~= seq![b]);
}

fn hex_digit_of(b: u8) -> (r: Option<u8>)
    ensures
        r == hex_digit(b),
{
    if 48 <= b && b <= 57 {
        Some(b - 48)
    } else if 97 <= b && b <= 102 {
        Some(b - 87)
    } else if 65 <= b && b <= 70 {
        Some(b - 55)
    } else {
        None
    }
}

fn escape_value_of(hi: u8, lo: u8) -> (r: Option<u8>)
    ensures
        r == escape_value(hi, lo),
{
    if hi == 43 {
        return hex_digit_of(lo);
    }
    match (hex_digit_of(hi), hex_digit_of(lo)) {
        (Some(h), Some(l)) => Some(16 * h + l),
        _ => None,
    }
}

/// Percent-decoding, for the one place a parameter can carry one: a business
/// id with a slash or a space in it.
fn decode(piece: &[char]) -> (r: String)
    ensures
        r@ == decoded(piece@),
{
    let s = string_of(piece);
    let out = {
        let bytes = s.as_str().as_bytes();
        let mut out: Vec<u8> = Vec::new();
        let mut i: usize = 0;
        assert(out@ + unescaped_from(bytes@, 0) =~= unescaped_from(bytes@, 0));
        while i < bytes.len()
            invariant
                i <= bytes@.len(),
                out@ + unescaped_from(bytes@, i as int) == unescaped_from(bytes@, 0),
            decreases bytes@.len() - i,
        {
            let mut escaped: Option<u8> = None;
            if bytes[i] == 37 && bytes.len() - i > 2 {
                escaped = escape_value_of(bytes[i + 1], bytes[i + 2]);
            }
            let ghost before = out@;
            match escaped {
                Some(b) => {
                    out.push(b);
                    assert(out@ + unescaped_from(bytes@, i + 3) =~= before + unescaped_from(bytes@, i as int));
                    i = i + 3;
                },
                None => {
                    out.push(bytes[i]);
                    assert(out@ + unescaped_from(bytes@, i + 1) =~= before + unescaped_from(bytes@, i as int));
                    i = i + 1;
                },
            }
        }
        assert(out@ =~= unescaped_from(bytes@, 0));
        out
    };
    match string_from_utf8(out) {
        Some(t) => t,
        None => s,
    }
}

// ---------------------------------------------------------------- routes

#[derive(Clone, Debug, PartialEq, Eq)]
enum Segment {
    Static(String),
    Param(String),
}

/// One piece of a route, as the contracts see it: literal text, or a name
/// that binds whatever stands there.
pub enum SegmentView {
    Static(Seq<char>),
    Param(Seq<char>),
}

spec fn segment_view(s: Segment) -> SegmentView {
    match s {
        Segment::Static(t) => SegmentView::Static(t@),
        Segment::Param(n) => SegmentView::Param(n@),
    }
}

/// A `:name` piece binds; everything else is literal.
pub open spec fn segment_of(piece: Seq<char>) -> SegmentView {
    if piece.len() > 0 && piece[0] == ':' {
        SegmentView::Param(piece.drop_first())
    } else {
        SegmentView::Static(piece)
    }
}

/// The route a pattern declares.
pub open spec fn route_of(pattern: Seq<char>) -> Seq<SegmentView> {
    words(normalised(pattern)).map_values(|p: Seq<char>| segment_of(p))
}

/// Whether every literal piece of the route is the piece of the path in its
/// place.
pub open spec fn literals_agree(segs: Seq<SegmentView>, parts: Seq<Seq<char>>) -> bool {
    forall|i: int|
        0 <= i < segs.len() ==> match #[trigger] segs[i] {
            SegmentView::Static(lit) => lit == parts[i],
            SegmentView::Param(_) => true,
        }
}

/// What the names of a route bind to, the later of two equal names winning.
pub open spec fn bound(segs: Seq<SegmentView>, parts: Seq<Seq<char>>) -> Map<Seq<char>, Seq<char>>
    decreases segs.len(),
{
    if segs.len() == 0 {
        Map::empty()
    } else {
        let m = bound(segs.drop_last(), parts.drop_last());
        match segs.last() {
            SegmentView::Param(name) => m.insert(name, decoded(parts.last())),
            SegmentView::Static(_) => m,
        }
    }
}

/// What a route makes of a path: the bindings when the path is that route.
pub open spec fn route_match(segs: Seq<SegmentView>, path: Seq<char>) -> Option<Map<Seq<char>, Seq<char>>> {
    let parts = words(normalised(path));
    if parts.len() == segs.len() && literals_agree(segs, parts) {
        Some(bound(segs, parts))
    } else {
        None
    }
}

/// One route the application declared.
#[derive(Clone, Debug, PartialEq, Eq)]
pub struct Route {
    segments: Vec<Segment>,
}

impl View for Route {
    type V = Seq<SegmentView>;

    closed spec fn view(&self) -> Seq<SegmentView> {
        self.segments@.map_values(|s: Segment| segment_view(s))
    }
}

impl Route {
    /// `"/objects/:id"`. A `:name` segment binds; everything else is literal.
    pub fn new(pattern: &str) -> (r: Route)
        ensures
            r@ == route_of(pattern@),
    {
        let path = normalise(pattern);
        let cs = chars_of(path.as_str());
        let pieces = split_words(cs.as_slice());
        let ghost ws = words(normalised(pattern@));
        let mut segments: Vec<Segment> = Vec::new();
        let mut i: usize = 0;
        while i < pieces.len()
            invariant
                i <= pieces@.len(),
                views(pieces@) == ws,
                segments@.len() == i,
                forall|j: int| 0 <= j < i ==> segment_view(#[trigger] segments@[j]) == segment_of(ws[j]),
            decreases pieces@.len() - i,
        {
            let piece = &pieces[i];
            assert(piece@ == ws[i as int]);
            let segment = if piece.len() > 0 && piece[0] == ':' {
                let mut name = String::new();
                push_chars(&mut name, piece.as_slice(), 1, piece.len());
                assert(name@ =~= piece@.drop_first());
                Segment::Param(name)
            } else {
                Segment::Static(string_of(piece.as_slice()))
            };
            assert(segment_view(segment) == segment_of(ws[i as int]));
            segments.push(segment);
            i = i + 1;
        }
        assert(segments@.map_values(|s: Segment| segment_view(s)) =~= ws.map_values(|p: Seq<char>| segment_of(p)));
        Route { segments }
    }

    fn matches(&self, path: &str) -> (r: Option<Params>)
        ensures
            match r {
                Some(p) => route_match(self@, path@) == Some(p@),
                None => route_match(self@, path@) is None,
            },
    {
        let normal = normalise(path);
        let cs = chars_of(normal.as_str());
        let parts = split_words(cs.as_slice());
        let ghost ps = views(parts@);
        let ghost segs = self@;
        if parts.len() != self.segments.len() {
            return None;
        }
        let mut params = Params::new();
        let mut i: usize = 0;
        while i < parts.len()
            invariant
                i <= parts@.len(),
                parts@.len() == self.segments@.len(),
                ps == views(parts@),
                ps == words(normalised(path@)),
                segs == self@,
                segs.len() == ps.len(),
                literals_agree(segs.take(i as int), ps.take(i as int)),
                params@ == bound(segs.take(i as int), ps.take(i as int)),
            decreases parts@.len() - i,
        {
            let ghost before = params@;
            assert(segs.take(i + 1).drop_last() =~= segs.take(i as int));
            assert(ps.take(i + 1).drop_last() =~= ps.take(i as int));
            assert(segs[i as int] == segment_view(self.segments@[i as int]));
            assert(ps[i as int] == parts@[i as int]@);
            match &self.segments[i] {
                Segment::Static(lit) => {
                    if !chars_eq_str(parts[i].as_slice(), lit.as_str()) {
                        assert(!literals_agree(segs, ps)) by {
                            assert(match segs[i as int] {
                                SegmentView::Static(l) => l != ps[i as int],
                                SegmentView::Param(_) => false,
                            });
                        }
                        return None;
                    }
                },
                Segment::Param(name) => {
                    params.insert(name.clone(), decode(parts[i].as_slice()));
                },
            }
            i = i + 1;
            assert forall|j: int| 0 <= j < i implies match #[trigger] segs.take(i as int)[j] {
                SegmentView::Static(lit) => lit == ps.take(i as int)[j],
                SegmentView::Param(_) => true,
            } by {
                if j < i - 1 {
                    assert(segs.take(i as int)[j] == segs.take(i - 1)[j]);
                    assert(ps.take(i as int)[j] == ps.take(i - 1)[j]);
                }
            }
        }
        assert(segs.take(i as int) =~= segs);
        assert(ps.take(i as int) =~= ps);
        Some(params)
    }
}

/// The first route, in the order they are tried, that a path is, with what
/// it bound.
pub open spec fn first_match_from(routes: Seq<Seq<SegmentView>>, path: Seq<char>, i: int) -> Option<(int, Map<Seq<char>, Seq<char>>)>
    decreases routes.len() - i,
{
    if i >= routes.len() {
        None
    } else {
        match route_match(routes[i], path) {
            Some(m) => Some((i, m)),
            None => first_match_from(routes, path, i + 1),
        }
    }
}

pub open spec fn first_match(routes: Seq<Seq<SegmentView>>, path: Seq<char>) -> Option<(int, Map<Seq<char>, Seq<char>>)> {
    first_match_from(routes, path, 0)
}

proof fn lemma_first_match_from_is_first(routes: Seq<Seq<SegmentView>>, path: Seq<char>, j: int)
    requires
        0 <= j,
    ensures
        match first_match_from(routes, path, j) {
            Some((i, m)) => {
                &&& j <= i < routes.len()
                &&& route_match(routes[i], path) == Some(m)
                &&& forall|k: int| j <= k < i ==> (#[trigger] route_match(routes[k], path)) is None
            },
            None => forall|k: int| j <= k < routes.len() ==> (#[trigger] route_match(routes[k], path)) is None,
        },
    decreases routes.len() - j,
{
    if j < routes.len() {
        lemma_first_match_from_is_first(routes, path, j + 1);
    }
}

/// The first declared route that a path is wins: the route a match names is
/// one the path is, with the bindings that route makes, and no route before
/// it is; and there is no match only when the path is none of the routes.
pub proof fn law_the_first_route_that_matches_wins(routes: Seq<Seq<SegmentView>>, path: Seq<char>)
    ensures
        match first_match(routes, path) {
            Some((i, m)) => {
                &&& 0 <= i < routes.len()
                &&& route_match(routes[i], path) == Some(m)
                &&& forall|k: int| 0 <= k < i ==> (#[trigger] route_match(routes[k], path)) is None
            },
            None => forall|k: int| 0 <= k < routes.len() ==> (#[trigger] route_match(routes[k], path)) is None,
        },
{
    lemma_first_match_from_is_first(routes, path, 0);
}

/// The application's routes, in the order they are tried.
#[derive(Clone, Debug)]
pub struct Routes(Vec<Route>);

impl View for Routes {
    type V = Seq<Seq<SegmentView>>;

    closed spec fn view(&self) -> Seq<Seq<SegmentView>> {
        self.0@.map_values(|r: Route| r@)
    }
}

impl Default for Routes {
    fn default() -> (r: Routes)
        ensures
            r@ == Seq::<Seq<SegmentView>>::empty(),
    {
        let r = Routes(Vec::new());
        assert(r@ =~= Seq::<Seq<SegmentView>>::empty());
        r
    }
}

impl Routes {
    pub fn new(patterns: &[&str]) -> (r: Routes)
        ensures
            r@ == patterns@.map_values(|p: &str| route_of(p@)),
    {
        let mut routes: Vec<Route> = Vec::new();
        let mut i: usize = 0;
        while i < patterns.len()
            invariant
                i <= patterns@.len(),
                routes@.len() == i,
                forall|j: int| 0 <= j < i ==> (#[trigger] routes@[j])@ == route_of(patterns@[j]@),
            decreases patterns@.len() - i,
        {
            routes.push(Route::new(patterns[i]));
            i = i + 1;
        }
        assert(routes@.map_values(|r: Route| r@) =~= patterns@.map_values(|p: &str| route_of(p@)));
        Routes(routes)
    }

    /// Which route a path is, and what it bound. `None` is the application's
    /// not-found view - a real answer, not a failure.
    pub fn match_path(&self, path: &str) -> (r: Option<(usize, Params)>)
        ensures
            match r {
                Some((i, p)) => first_match(self@, path@) == Some((i as int, p@)),
                None => first_match(self@, path@) is None,
            },
            match r {
                Some((i, p)) => {
                    &&& i < self@.len()
                    &&& route_match(self@[i as int], path@) == Some(p@)
                    &&& forall|k: int| 0 <= k < i ==> (#[trigger] route_match(self@[k], path@)) is None
                },
                None => forall|k: int| 0 <= k < self@.len() ==> (#[trigger] route_match(self@[k], path@)) is None,
            },
    {
        proof {
            law_the_first_route_that_matches_wins(self@, path@);
        }
        let mut i: usize = 0;
        while i < self.0.len()
            invariant
                i <= self.0@.len(),
                first_match_from(self@, path@, i as int) == first_match(self@, path@),
            decreases self.0@.len() - i,
        {
            assert(self@[i as int] == self.0@[i as int]@);
            match self.0[i].matches(path) {
                Some(params) => {
                    proof {
                        law_the_first_route_that_matches_wins(self@, path@);
                    }
                    return Some((i, params));
                },
                None => {},
            }
            i = i + 1;
        }
        None
    }

    pub fn len(&self) -> (r: usize)
        ensures
            r == self@.len(),
    {
        self.0.len()
    }

    pub fn is_empty(&self) -> (r: bool)
        ensures
            r == (self@.len() == 0),
    {
        self.0.len() == 0
    }
}

// --------------------------------------------------------------- history

/// What the router should do about a history event.
#[derive(Clone, Copy, Debug, PartialEq, Eq, Structural)]
pub enum Arrival {
    /// Show it. Either nothing objected, or there is nothing to be done.
    Accept,
    /// A guard refused. Move by this many entries to undo it, and wait.
    Restore { delta: i64 },
    /// The recovery is not converging. Accept where we are and say so.
    GiveUp,
}

/// What asking to navigate turned into.
#[derive(Clone, Copy, Debug, PartialEq, Eq, Structural)]
pub enum Navigation {
    Done,
    /// A guard refused; the address bar and the view are unchanged.
    Blocked,
    /// A recovery is in flight. Asking during one would race it.
    Busy,
}

#[derive(Clone, Copy, Debug)]
struct Restore {
    target: u64,
    attempts: u8,
}

/// How many times a recovery may be re-aimed before it is abandoned. Three
/// is enough for a user pressing back while one is in flight and few enough
/// that a fight with the browser ends.
pub const RECOVERY_ATTEMPTS: u8 = 3;

/// Which entry the user is on, and what to do when that changes underneath.
///
/// The sequence number is the whole design. A URL is not an identity - the
/// same one appears at several entries - and the number of moves a `go()` will
/// take is not knowable from the number asked for, because the user is pressing
/// back at the same time. So every decision here is made from the number the
/// browser just reported.
#[derive(Clone, Debug)]
pub struct History {
    index: u64,
    next: u64,
    restoring: Option<Restore>,
}

/// A history as the contracts see it: the entry the application is on, the
/// number the next pushed entry gets, and the recovery in flight as the entry
/// it aims at and how many times it has been aimed.
pub struct HistoryView {
    pub index: u64,
    pub next: u64,
    pub restoring: Option<(u64, u8)>,
}

impl View for History {
    type V = HistoryView;

    closed spec fn view(&self) -> HistoryView {
        HistoryView {
            index: self.index,
            next: self.next,
            restoring: match self.restoring {
                Some(r) => Some((r.target, r.attempts)),
                None => None,
            },
        }
    }
}

/// An entry number as the browser's signed arithmetic sees it.
pub open spec fn signed(x: u64) -> int {
    if x <= i64::MAX {
        x as int
    } else {
        x - 0x1_0000_0000_0000_0000
    }
}

/// The move from `entry` that lands on `target`.
pub open spec fn moves(target: u64, entry: u64) -> int {
    signed(target) - signed(entry)
}

pub open spec fn fits_i64(d: int) -> bool {
    i64::MIN <= d <= i64::MAX
}

/// Whether the move an arrival answers with can be written down: the only
/// arrivals that take a difference are a re-aim and a first refusal.
pub open spec fn arrival_in_range(h: HistoryView, entry: Option<u64>, blocked: bool) -> bool {
    match entry {
        None => true,
        Some(e) => match h.restoring {
            Some((target, attempts)) => e == target || attempts >= RECOVERY_ATTEMPTS || fits_i64(moves(target, e)),
            None => !blocked || fits_i64(moves(h.index, e)),
        },
    }
}

/// What a history event does: the history afterwards and the answer.
///
/// An entry with no number is not this router's (a host script's, an older
/// build's, a restored session's): it is accepted and ends any recovery.
/// During a recovery, landing on the target ends it; landing elsewhere
/// re-aims it from there, until it has been aimed `RECOVERY_ATTEMPTS` times,
/// and then it is abandoned where the user is. Otherwise a refused move is
/// undone by one move of the difference, and an allowed one is taken.
pub open spec fn after_arrival(h: HistoryView, entry: Option<u64>, blocked: bool) -> (HistoryView, Arrival) {
    match entry {
        None => (HistoryView { restoring: None, ..h }, Arrival::Accept),
        Some(e) => match h.restoring {
            Some((target, attempts)) => if e == target {
                (HistoryView { index: e, restoring: None, ..h }, Arrival::Accept)
            } else if attempts >= RECOVERY_ATTEMPTS {
                (HistoryView { index: e, restoring: None, ..h }, Arrival::GiveUp)
            } else {
                (
                    HistoryView { restoring: Some((target, (attempts + 1) as u8)), ..h },
                    Arrival::Restore { delta: moves(target, e) as i64 },
                )
            },
            None => if !blocked {
                (HistoryView { index: e, ..h }, Arrival::Accept)
            } else if e == h.index {
                (h, Arrival::Accept)
            } else {
                (HistoryView { restoring: Some((h.index, 1)), ..h }, Arrival::Restore { delta: moves(h.index, e) as i64 })
            },
        },
    }
}

/// The move from `entry` to `target`, in the browser's signed arithmetic.
fn difference(target: u64, entry: u64) -> (d: i64)
    requires
        fits_i64(moves(target, entry)),
    ensures
        d == moves(target, entry),
{
    let t: i128 = if target <= 0x7fff_ffff_ffff_ffff {
        target as i128
    } else {
        target as i128 - 0x1_0000_0000_0000_0000i128
    };
    let e: i128 = if entry <= 0x7fff_ffff_ffff_ffff {
        entry as i128
    } else {
        entry as i128 - 0x1_0000_0000_0000_0000i128
    };
    (t - e) as i64
}

impl History {
    /// The entry the page loaded on. Reloading keeps the number it already had.
    pub fn new(index: u64) -> (r: History)
        requires
            index < u64::MAX,
        ensures
            r@.index == index,
            r@.next == index + 1,
            r@.restoring is None,
    {
        History { index, next: index + 1, restoring: None }
    }

    pub fn index(&self) -> (r: u64)
        ensures
            r == self@.index,
    {
        self.index
    }

    /// Whether a recovery is in flight.
    pub fn restoring(&self) -> (r: bool)
        ensures
            r == self@.restoring is Some,
    {
        self.restoring.is_some()
    }

    /// The number to stamp on a new entry. Pushing truncates whatever was
    /// ahead, so nothing can be restored to it any more: it ends any recovery.
    pub fn push(&mut self) -> (r: u64)
        requires
            old(self)@.next < u64::MAX,
        ensures
            r == old(self)@.next,
            final(self)@.index == r,
            final(self)@.next == r + 1,
            final(self)@.restoring is None,
    {
        let index = self.next;
        self.next = self.next + 1;
        self.index = index;
        self.restoring = None;
        index
    }

    /// Replacing keeps the entry, and therefore its number.
    pub fn replace(&mut self) -> (r: u64)
        ensures
            r == old(self)@.index,
            final(self)@ == old(self)@,
    {
        self.index
    }

    /// A history event arrived at `entry`, and `blocked` says whether a guard
    /// refused to leave.
    ///
    /// `entry` is `None` for an entry this router did not push. Those are not
    /// ours to undo, so they are accepted.
    pub fn arrived(&mut self, entry: Option<u64>, blocked: bool) -> (a: Arrival)
        requires
            arrival_in_range(old(self)@, entry, blocked),
        ensures
            (final(self)@, a) == after_arrival(old(self)@, entry, blocked),
    {
        let e = match entry {
            None => {
                self.restoring = None;
                return Arrival::Accept;
            },
            Some(e) => e,
        };
        if let Some(restore) = self.restoring {
            if e == restore.target {
                self.restoring = None;
                self.index = e;
                return Arrival::Accept;
            }
            if restore.attempts >= RECOVERY_ATTEMPTS {
                self.restoring = None;
                self.index = e;
                return Arrival::GiveUp;
            }
            self.restoring = Some(Restore { target: restore.target, attempts: restore.attempts + 1 });
            return Arrival::Restore { delta: difference(restore.target, e) };
        }
        if !blocked {
            self.index = e;
            return Arrival::Accept;
        }
        // Refused. The entry we are on is where the user should stay, and one
        // move of the difference is what puts them there.
        if e == self.index {
            return Arrival::Accept;
        }
        let delta = difference(self.index, e);
        self.restoring = Some(Restore { target: self.index, attempts: 1 });
        Arrival::Restore { delta }
    }
}

// ------------------------------------------------------------------ laws

proof fn lemma_first_match_depends_on_normal_form(routes: Seq<Seq<SegmentView>>, a: Seq<char>, b: Seq<char>, i: int)
    requires
        normalised(a) == normalised(b),
    ensures
        first_match_from(routes, a, i) == first_match_from(routes, b, i),
    decreases routes.len() - i,
{
    if i < routes.len() {
        lemma_first_match_depends_on_normal_form(routes, a, b, i + 1);
    }
}

/// A trailing slash is the same place: a path with one more `/` at its end
/// is the same location and matches the same route with the same bindings.
pub proof fn law_a_trailing_slash_is_the_same_place(routes: Seq<Seq<SegmentView>>, path: Seq<char>)
    ensures
        normalised(path.push('/')) == normalised(path),
        first_match(routes, path.push('/')) == first_match(routes, path),
{
    assert(path.push('/').drop_last() =~= path);
    lemma_first_match_depends_on_normal_form(routes, path.push('/'), path, 0);
}

/// A location's path always starts with a slash, whatever it was made
/// from.
pub proof fn law_a_location_path_starts_with_a_slash(path: Seq<char>)
    ensures
        normalised(path).len() > 0,
        normalised(path)[0] == '/',
{
}

/// Reading from `k` places in is reading the rest of `s` from its start.
proof fn lemma_words_shift(s: Seq<char>, k: int, j: int, cur: Seq<char>)
    requires
        0 <= k <= s.len(),
        0 <= j,
    ensures
        words_from(s, k + j, cur) == words_from(s.skip(k), j, cur),
    decreases s.len() - k - j,
{
    if k + j < s.len() {
        assert(s.skip(k)[j] == s[k + j]);
        if s[k + j] == '/' {
            lemma_words_shift(s, k, j + 1, Seq::empty());
        } else {
            lemma_words_shift(s, k, j + 1, cur.push(s[k + j]));
        }
    }
}

/// Up to a slash at `a.len()`, reading `a + "/" + b` is reading `a`, and the
/// slash closes whatever piece `a` ended in.
proof fn lemma_words_before_slash(a: Seq<char>, b: Seq<char>, i: int, cur: Seq<char>)
    requires
        0 <= i <= a.len(),
    ensures
        words_from(a + seq!['/'] + b, i, cur) == words_from(a, i, cur) + words_from(a + seq!['/'] + b, a.len() + 1int, Seq::empty()),
    decreases a.len() - i,
{
    let s = a + seq!['/'] + b;
    let rest = words_from(s, a.len() + 1int, Seq::empty());
    if i < a.len() {
        assert(s[i] == a[i]);
        if a[i] == '/' {
            lemma_words_before_slash(a, b, i + 1, Seq::empty());
            assert(finished(cur) + (words_from(a, i + 1, Seq::empty()) + rest) =~= (finished(cur) + words_from(a, i + 1, Seq::empty())) + rest);
        } else {
            lemma_words_before_slash(a, b, i + 1, cur.push(a[i]));
        }
    } else {
        assert(s[i] == '/');
    }
}

/// A slash splits the pieces: the pieces of `a + "/" + b` are those of `a`
/// followed by those of `b`.
proof fn lemma_words_split(a: Seq<char>, b: Seq<char>)
    ensures
        words(a + seq!['/'] + b) == words(a) + words(b),
{
    let s = a + seq!['/'] + b;
    lemma_words_before_slash(a, b, 0, Seq::empty());
    lemma_words_shift(s, a.len() + 1int, 0, Seq::empty());
    assert(s.skip(a.len() + 1int) =~= b);
}

proof fn lemma_no_words_in_nothing()
    ensures
        words(Seq::<char>::empty()) == Seq::<Seq<char>>::empty(),
{
}

/// Slashes at the end make no piece.
proof fn lemma_words_trim_end(s: Seq<char>)
    ensures
        words(trim_end_slashes(s)) == words(s),
    decreases s.len(),
{
    if s.len() > 0 && s.last() == '/' {
        lemma_words_trim_end(s.drop_last());
        lemma_words_split(s.drop_last(), Seq::empty());
        lemma_no_words_in_nothing();
        assert(s.drop_last() + seq!['/'] + Seq::<char>::empty() =~= s);
        assert(words(s.drop_last()) + Seq::<Seq<char>>::empty() =~= words(s.drop_last()));
    }
}

/// Normalising a path keeps its pieces.
proof fn lemma_words_normalised(s: Seq<char>)
    ensures
        words(normalised(s)) == words(s),
{
    let t = trim_end_slashes(s);
    lemma_words_trim_end(s);
    lemma_no_words_in_nothing();
    lemma_words_split(Seq::empty(), t);
    assert(Seq::<char>::empty() + seq!['/'] + t =~= seq!['/'] + t);
    assert(Seq::<Seq<char>>::empty() + words(t) =~= words(t));
    if t.len() == 0 {
        assert(seq!['/'] + t =~= seq!['/']);
    }
}

/// A route is its pattern's pieces between slashes, each read as a segment:
/// how many slashes stand before, between or after them changes nothing, so
/// two patterns with the same pieces declare the same route.
pub proof fn law_a_route_is_its_pieces(pattern: Seq<char>, other: Seq<char>)
    ensures
        route_of(pattern) == words(pattern).map_values(|p: Seq<char>| segment_of(p)),
        words(pattern) == words(other) ==> route_of(pattern) == route_of(other),
{
    lemma_words_normalised(pattern);
    lemma_words_normalised(other);
}

/// Leading, trailing and repeated slashes do not change a route: a `/` put at
/// the start, at the end or next to another `/` declares the same route, so
/// `/objects/:id`, `objects/:id/` and `//objects//:id` are one route.
pub proof fn law_extra_slashes_give_the_same_route(pattern: Seq<char>, i: int)
    requires
        0 <= i <= pattern.len(),
        i == 0 || i == pattern.len() || pattern[i - 1] == '/' || pattern[i] == '/',
    ensures
        route_of(pattern.insert(i, '/')) == route_of(pattern),
{
    let q = pattern.insert(i, '/');
    lemma_no_words_in_nothing();
    if i == 0 {
        lemma_words_split(Seq::empty(), pattern);
        assert(Seq::<char>::empty() + seq!['/'] + pattern =~= q);
        assert(Seq::<Seq<char>>::empty() + words(pattern) =~= words(pattern));
    } else if i == pattern.len() {
        lemma_words_split(pattern, Seq::empty());
        assert(pattern + seq!['/'] + Seq::<char>::empty() =~= q);
        assert(words(pattern) + Seq::<Seq<char>>::empty() =~= words(pattern));
    } else {
        // Either way the pattern is `a + "/" + b` and the new slash opens `b`.
        let k = if pattern[i - 1] == '/' { i - 1 } else { i };
        let a = pattern.take(k);
        let b = pattern.skip(k + 1);
        assert(a + seq!['/'] + b =~= pattern);
        assert(a + seq!['/'] + (seq!['/'] + b) =~= q);
        lemma_words_split(a, b);
        lemma_words_split(a, seq!['/'] + b);
        lemma_words_split(Seq::empty(), b);
        assert(Seq::<char>::empty() + seq!['/'] + b =~= seq!['/'] + b);
        assert(Seq::<Seq<char>>::empty() + words(b) =~= words(b));
    }
    law_a_route_is_its_pieces(q, pattern);
}

/// Taking the base off an address built under it gives the location's path
/// back: `strip_base` undoes what `href` put in front.
pub proof fn law_strip_base_undoes_the_base(base: Seq<char>, path: Seq<char>)
    ensures
        under_base(base, trim_end_slashes(base) + normalised(path)) == Some(normalised(path)),
{
    let b = trim_end_slashes(base);
    let p = normalised(path);
    let whole = b + p;
    assert(whole.take(b.len() as int) =~= b);
    assert(whole.skip(b.len() as int) =~= p);
    if b.len() == 0 {
        assert(whole =~= p);
    }
}

/// A recovery in flight has been aimed at least once and at most
/// `RECOVERY_ATTEMPTS` times.
pub open spec fn recovery_bounded(h: HistoryView) -> bool {
    match h.restoring {
        Some((_, attempts)) => 1 <= attempts <= RECOVERY_ATTEMPTS,
        None => true,
    }
}

/// A recovery that will not converge stops rather than fighting: every event
/// keeps the recovery bounded, and an event that neither ends it nor abandons
/// it aims it once more at the same entry. So a recovery answers `Restore`
/// at most `RECOVERY_ATTEMPTS` times before it ends.
pub proof fn law_a_recovery_is_re_aimed_a_bounded_number_of_times(h: HistoryView, entry: Option<u64>, blocked: bool)
    requires
        recovery_bounded(h),
    ensures
        recovery_bounded(after_arrival(h, entry, blocked).0),
        h.restoring matches Some((target, attempts)) ==> (after_arrival(h, entry, blocked).0.restoring is Some ==>
            after_arrival(h, entry, blocked).0.restoring == Some((target, (attempts + 1) as u8))),
        h.restoring matches Some((_, attempts)) ==> (attempts >= RECOVERY_ATTEMPTS ==>
            after_arrival(h, entry, blocked).0.restoring is None),
        (after_arrival(h, entry, blocked).1 is Restore) == (after_arrival(h, entry, blocked).0.restoring is Some
            && after_arrival(h, entry, blocked).0.restoring != h.restoring),
{
}

/// A refused move is undone in one go of the difference: the move a
/// `Restore` asks for takes the user from the entry they landed on to the
/// entry the recovery aims at, which is the entry the application was on.
pub proof fn law_a_restore_leads_back(h: HistoryView, e: u64, blocked: bool)
    requires
        arrival_in_range(h, Some(e), blocked),
    ensures
        after_arrival(h, Some(e), blocked).1 matches Arrival::Restore { delta } ==> ({
            let aim = after_arrival(h, Some(e), blocked).0.restoring->0;
            let target = aim.0;
            &&& signed(e) + delta == signed(target)
            &&& target == match h.restoring {
                Some((t, _)) => t,
                None => h.index,
            }
            &&& after_arrival(h, Some(e), blocked).0.index == h.index
        }),
{
}

} // verus!
