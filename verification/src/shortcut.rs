//! Keyboard shortcuts: written once as text, matched against what the browser
//! reports, and kept away from the keys a text field needs.
//!
//! A shortcut is written the way menus print it - `Mod+Shift+K` - and parsed
//! once. `Mod` is the command key of the platform the page is running on:
//! Meta on a Mac, Control everywhere else.
//!
//! Matching reads `KeyboardEvent.key`, the character the layout produced, so
//! `Mod+Z` is the key labelled Z on an AZERTY keyboard as much as on a QWERTY
//! one. Where the layout produced something else for a letter or a digit - a
//! Cyrillic layout, Option on a Mac composing a symbol, Shift turning `1` into
//! `!` - the physical key stands in, which is what a person pressing "Mod+K" on
//! those keyboards means.

use vstd::prelude::*;
use crate::strings::{
    joined, all_digits, digit_char, digits_value, lemma_digits_value_grows, lower_char,
    chars_eq, chars_eq_str, chars_of, decimal, ends_with, is_ascii_digit, is_ascii_lower, lower,
    push_char, push_chars, push_decimal, push_str, starts_with, str_eq, string_of, to_ascii_lowercase,
    upper_char, ascii_upper_char, is_ascii_alphanumeric,
};
use crate::unicode::{
    char_to_lowercase, char_to_uppercase, is_alphabetic, is_whitespace, str_to_lowercase, trim_bounds,
    trim_ws, alphabetic, lower_of, lower_text, upper_of, white_space, all_ascii, lemma_trim_ws_plain,
};

verus! {

/// Which key `Mod` stands for.
#[derive(Clone, Copy, Debug, PartialEq, Eq, Hash, Structural)]
pub enum Platform {
    /// macOS, and iPadOS with a keyboard: the command key is Meta.
    Mac,
    /// Everything else: the command key is Control.
    Other,
}

impl Platform {
    /// The platform this code runs on. Outside a browser there is nothing to
    /// ask, and the answer is [`Platform::Other`]; code that needs a
    /// particular platform says so through [`Shortcut::parse_for`].
    pub fn current() -> (r: Platform)
        ensures
            r == Platform::Other,
    {
        Platform::Other
    }

    /// The platform a browser's `navigator.platform` names: `MacIntel` on
    /// every Mac, `iPad`, `iPhone` or `iPod` otherwise, and all of them put
    /// the command key where Meta is.
    pub fn from_navigator(platform: &str) -> (r: Platform)
        ensures
            r == (if starts_with(platform@, "Mac"@) || starts_with(platform@, "iP"@) {
                Platform::Mac
            } else {
                Platform::Other
            }),
    {
        let name = chars_of(platform);
        let mac = chars_of("Mac");
        let ip = chars_of("iP");
        if crate::strings::chars_start_with(name.as_slice(), mac.as_slice())
            || crate::strings::chars_start_with(name.as_slice(), ip.as_slice()) {
            Platform::Mac
        } else {
            Platform::Other
        }
    }
}

/// Which modifier keys are held.
#[derive(Clone, Copy, Debug, Default, PartialEq, Eq, Hash, Structural)]
pub struct Modifiers {
    pub ctrl: bool,
    pub alt: bool,
    pub shift: bool,
    pub meta: bool,
}

/// A key press as plain data: what `KeyboardEvent` says, without the event.
#[derive(Clone, Copy, Debug, PartialEq, Eq)]
pub struct Keystroke<'a> {
    /// `KeyboardEvent.key`: what the layout produced.
    pub key: &'a str,
    /// `KeyboardEvent.code`: which physical key it was.
    pub code: &'a str,
    pub modifiers: Modifiers,
}

/// Why a shortcut's text does not describe one.
#[derive(Clone, Debug, PartialEq, Eq)]
pub enum ShortcutError {
    /// Nothing but white space.
    Empty,
    /// Modifiers and no key, such as `Ctrl+Shift` or `Ctrl+`.
    MissingKey,
    /// A part before the key that is not a modifier.
    UnknownModifier(String),
    /// The same modifier twice.
    RepeatedModifier(String),
    /// A key name longer than one character that is not a named key.
    UnknownKey(String),
}

/// A parse error as the contracts see it.
pub enum ErrorView {
    Empty,
    MissingKey,
    UnknownModifier(Seq<char>),
    RepeatedModifier(Seq<char>),
    UnknownKey(Seq<char>),
}

pub open spec fn error_view(e: ShortcutError) -> ErrorView {
    match e {
        ShortcutError::Empty => ErrorView::Empty,
        ShortcutError::MissingKey => ErrorView::MissingKey,
        ShortcutError::UnknownModifier(p) => ErrorView::UnknownModifier(p@),
        ShortcutError::RepeatedModifier(p) => ErrorView::RepeatedModifier(p@),
        ShortcutError::UnknownKey(p) => ErrorView::UnknownKey(p@),
    }
}

/// What an error says, in words.
pub open spec fn error_text(e: ErrorView) -> Seq<char> {
    match e {
        ErrorView::Empty => "a shortcut needs a key"@,
        ErrorView::MissingKey => "a shortcut needs a key after its modifiers"@,
        ErrorView::UnknownModifier(p) => "`"@ + p + "` is not a modifier"@,
        ErrorView::RepeatedModifier(p) => "`"@ + p + "` is named twice"@,
        ErrorView::UnknownKey(p) => "`"@ + p + "` is not a key"@,
    }
}

impl ShortcutError {
    /// What is wrong with the text, in words.
    pub fn message(&self) -> (r: String)
        ensures
            r@ == error_text(error_view(*self)),
    {
        let mut out = String::new();
        match self {
            ShortcutError::Empty => push_str(&mut out, "a shortcut needs a key"),
            ShortcutError::MissingKey => push_str(&mut out, "a shortcut needs a key after its modifiers"),
            ShortcutError::UnknownModifier(p) => {
                push_str(&mut out, "`");
                push_str(&mut out, p.as_str());
                push_str(&mut out, "` is not a modifier");
            },
            ShortcutError::RepeatedModifier(p) => {
                push_str(&mut out, "`");
                push_str(&mut out, p.as_str());
                push_str(&mut out, "` is named twice");
            },
            ShortcutError::UnknownKey(p) => {
                push_str(&mut out, "`");
                push_str(&mut out, p.as_str());
                push_str(&mut out, "` is not a key");
            },
        }
        assert(out@ =~= error_text(error_view(*self)));
        out
    }
}

/// One key and the modifiers held with it, with `Mod` already resolved.
#[derive(Clone, Debug, PartialEq, Eq, Hash)]
pub struct Shortcut {
    /// The `KeyboardEvent.key` value it answers to, a letter in lower case.
    key: String,
    modifiers: Modifiers,
}

impl View for Shortcut {
    type V = (Seq<char>, Modifiers);

    closed spec fn view(&self) -> (Seq<char>, Modifiers) {
        (self.key@, self.modifiers)
    }
}

// ------------------------------------------------------------- key names

/// Named keys, by every name a person is likely to write, and the value
/// `KeyboardEvent.key` reports for each. `+` separates the parts, so the key
/// itself is written by name - or as the last of two, as in `Ctrl++`.
pub open spec fn named_keys() -> Seq<(Seq<char>, Seq<char>)> {
    seq![
        ("escape"@, "Escape"@),
        ("esc"@, "Escape"@),
        ("enter"@, "Enter"@),
        ("return"@, "Enter"@),
        ("tab"@, "Tab"@),
        ("space"@, " "@),
        ("backspace"@, "Backspace"@),
        ("delete"@, "Delete"@),
        ("del"@, "Delete"@),
        ("insert"@, "Insert"@),
        ("home"@, "Home"@),
        ("end"@, "End"@),
        ("pageup"@, "PageUp"@),
        ("pagedown"@, "PageDown"@),
        ("arrowup"@, "ArrowUp"@),
        ("up"@, "ArrowUp"@),
        ("arrowdown"@, "ArrowDown"@),
        ("down"@, "ArrowDown"@),
        ("arrowleft"@, "ArrowLeft"@),
        ("left"@, "ArrowLeft"@),
        ("arrowright"@, "ArrowRight"@),
        ("right"@, "ArrowRight"@),
        ("plus"@, "+"@),
    ]
}

fn named_key_table() -> (r: [(&'static str, &'static str); 23])
    ensures
        r@.map_values(|p: (&'static str, &'static str)| (p.0@, p.1@)) == named_keys(),
{
    let r = [
        ("escape", "Escape"),
        ("esc", "Escape"),
        ("enter", "Enter"),
        ("return", "Enter"),
        ("tab", "Tab"),
        ("space", " "),
        ("backspace", "Backspace"),
        ("delete", "Delete"),
        ("del", "Delete"),
        ("insert", "Insert"),
        ("home", "Home"),
        ("end", "End"),
        ("pageup", "PageUp"),
        ("pagedown", "PageDown"),
        ("arrowup", "ArrowUp"),
        ("up", "ArrowUp"),
        ("arrowdown", "ArrowDown"),
        ("down", "ArrowDown"),
        ("arrowleft", "ArrowLeft"),
        ("left", "ArrowLeft"),
        ("arrowright", "ArrowRight"),
        ("right", "ArrowRight"),
        ("plus", "+"),
    ];
    assert(r@.map_values(|p: (&'static str, &'static str)| (p.0@, p.1@)) =~= named_keys());
    r
}

/// The value of the first entry of `table`, from `i` on, whose name is
/// `alias`.
pub open spec fn lookup_from(table: Seq<(Seq<char>, Seq<char>)>, alias: Seq<char>, i: int) -> Option<Seq<char>>
    decreases table.len() - i,
{
    if i < 0 || i >= table.len() {
        None
    } else if table[i].0 == alias {
        Some(table[i].1)
    } else {
        lookup_from(table, alias, i + 1)
    }
}

/// The key value a named key stands for.
pub open spec fn named_key(alias: Seq<char>) -> Option<Seq<char>> {
    lookup_from(named_keys(), alias, 0)
}

fn find_named_key(alias: &[char]) -> (r: Option<&'static str>)
    ensures
        match r {
            Some(v) => named_key(alias@) == Some(v@),
            None => named_key(alias@) is None,
        },
{
    let table = named_key_table();
    let ghost views = table@.map_values(|p: (&'static str, &'static str)| (p.0@, p.1@));
    let mut i: usize = 0;
    while i < 23
        invariant
            i <= 23,
            views == table@.map_values(|p: (&'static str, &'static str)| (p.0@, p.1@)),
            views == named_keys(),
            lookup_from(views, alias@, i as int) == named_key(alias@),
        decreases 23 - i,
    {
        let (name, value) = table[i];
        assert(views[i as int] == (name@, value@));
        if chars_eq_str(alias, name) {
            return Some(value);
        }
        i = i + 1;
    }
    None
}

/// A `u8` read in decimal the way the standard parser reads one: an optional
/// `+` sign, then at least one digit, and a value that fits.
pub open spec fn parse_u8(s: Seq<char>) -> Option<u8> {
    let d = if s.len() > 1 && s[0] == '+' {
        s.drop_first()
    } else {
        s
    };
    if d.len() > 0 && all_digits(d) && digits_value(d) <= 255 {
        Some(digits_value(d) as u8)
    } else {
        None
    }
}

fn parse_u8_of(s: &[char]) -> (r: Option<u8>)
    ensures
        r == parse_u8(s@),
{
    let start: usize = if s.len() > 1 && s[0] == '+' {
        1
    } else {
        0
    };
    let ghost d = if s@.len() > 1 && s@[0] == '+' {
        s@.drop_first()
    } else {
        s@
    };
    assert(d =~= s@.subrange(start as int, s@.len() as int));
    if start == s.len() {
        return None;
    }
    let mut k: usize = start;
    while k < s.len()
        invariant
            start <= k <= s@.len(),
            d == s@.subrange(start as int, s@.len() as int),
            d == (if s@.len() > 1 && s@[0] == '+' {
                s@.drop_first()
            } else {
                s@
            }),
            forall|j: int| 0 <= j < k - start ==> is_ascii_digit(#[trigger] d[j]),
        decreases s@.len() - k,
    {
        if !('0' <= s[k] && s[k] <= '9') {
            assert(!is_ascii_digit(d[k - start]));
            return None;
        }
        k = k + 1;
    }
    assert(all_digits(d));
    let mut value: u32 = 0;
    let mut k: usize = start;
    while k < s.len()
        invariant
            start <= k <= s@.len(),
            d == s@.subrange(start as int, s@.len() as int),
            d == (if s@.len() > 1 && s@[0] == '+' {
                s@.drop_first()
            } else {
                s@
            }),
            all_digits(d),
            value == digits_value(d.take(k - start)),
            value <= 255,
        decreases s@.len() - k,
    {
        assert(d.take(k - start + 1).drop_last() =~= d.take(k - start));
        assert(is_ascii_digit(d[k - start]));
        let digit: u32 = (s[k] as u32) - 48;
        let next = value * 10 + digit;
        if next > 255 {
            proof {
                lemma_digits_value_grows(d, k - start + 1);
            }
            return None;
        }
        value = next;
        k = k + 1;
    }
    assert(d.take(k - start) =~= d);
    Some(value as u8)
}

/// Whether a number read after an `f` names a function key, F1 to F24.
pub open spec fn function_key(n: Option<u8>) -> bool {
    match n {
        Some(n) => 1 <= n <= 24,
        None => false,
    }
}

/// The `KeyboardEvent.key` value a key name stands for: one character in its
/// lower case, a named key, or a function key from F1 to F24.
pub open spec fn key_value(name: Seq<char>) -> Result<Seq<char>, ErrorView> {
    if name.len() == 1 {
        Ok(lower_of(name[0]))
    } else if named_key(lower(name)) is Some {
        Ok(named_key(lower(name))->0)
    } else if lower(name).len() > 0 && lower(name)[0] == 'f' && function_key(parse_u8(lower(name).drop_first())) {
        Ok("F"@ + decimal(parse_u8(lower(name).drop_first())->0 as nat))
    } else {
        Err(ErrorView::UnknownKey(name))
    }
}

fn key_value_of(name: &[char]) -> (r: Result<String, ShortcutError>)
    ensures
        match r {
            Ok(k) => key_value(name@) == Ok::<Seq<char>, ErrorView>(k@),
            Err(e) => key_value(name@) == Err::<Seq<char>, ErrorView>(error_view(e)),
        },
{
    if name.len() == 1 {
        return Ok(char_to_lowercase(name[0]));
    }
    let text = string_of(name);
    let lowered = to_ascii_lowercase(text.as_str());
    match find_named_key(lowered.as_slice()) {
        Some(v) => {
            return Ok(v.to_owned());
        },
        None => {},
    }
    if lowered.len() > 0 && lowered[0] == 'f' {
        let mut digits: Vec<char> = Vec::new();
        let mut k: usize = 1;
        while k < lowered.len()
            invariant
                1 <= k <= lowered@.len(),
                digits@ == lowered@.subrange(1, k as int),
            decreases lowered@.len() - k,
        {
            digits.push(lowered[k]);
            k = k + 1;
            assert(digits@ =~= lowered@.subrange(1, k as int));
        }
        assert(digits@ =~= lowered@.drop_first());
        match parse_u8_of(digits.as_slice()) {
            Some(n) => {
                if 1 <= n && n <= 24 {
                    let mut out = String::new();
                    push_char(&mut out, 'F');
                    push_decimal(&mut out, n as u64);
                    assert(out@ =~= "F"@ + decimal(n as nat)) by {
                        reveal_strlit("F");
                    }
                    return Ok(out);
                }
            },
            None => {},
        }
    }
    Err(ShortcutError::UnknownKey(text))
}

// ------------------------------------------------------------- modifiers

/// The modifier a part names.
#[derive(Clone, Copy, Debug, PartialEq, Eq, Structural)]
pub enum Part {
    Mod,
    Ctrl,
    Alt,
    Shift,
    Meta,
}

/// The modifier a part names, by any of its names and in any case.
pub open spec fn modifier_named(part: Seq<char>) -> Option<Part> {
    let l = lower(part);
    if l == "mod"@ {
        Some(Part::Mod)
    } else if l == "ctrl"@ || l == "control"@ {
        Some(Part::Ctrl)
    } else if l == "alt"@ || l == "option"@ || l == "opt"@ {
        Some(Part::Alt)
    } else if l == "shift"@ {
        Some(Part::Shift)
    } else if l == "meta"@ || l == "cmd"@ || l == "command"@ {
        Some(Part::Meta)
    } else {
        None
    }
}

fn modifier(part: &[char]) -> (r: Option<Part>)
    ensures
        r == modifier_named(part@),
{
    let text = string_of(part);
    let l = to_ascii_lowercase(text.as_str());
    let l = l.as_slice();
    if chars_eq_str(l, "mod") {
        Some(Part::Mod)
    } else if chars_eq_str(l, "ctrl") || chars_eq_str(l, "control") {
        Some(Part::Ctrl)
    } else if chars_eq_str(l, "alt") || chars_eq_str(l, "option") || chars_eq_str(l, "opt") {
        Some(Part::Alt)
    } else if chars_eq_str(l, "shift") {
        Some(Part::Shift)
    } else if chars_eq_str(l, "meta") || chars_eq_str(l, "cmd") || chars_eq_str(l, "command") {
        Some(Part::Meta)
    } else {
        None
    }
}

/// `m` with the key `p` names held, `Mod` being Meta on a Mac and Control
/// elsewhere.
pub open spec fn with_part(m: Modifiers, p: Part, platform: Platform) -> Modifiers {
    match p {
        Part::Mod => if platform == Platform::Mac {
            Modifiers { meta: true, ..m }
        } else {
            Modifiers { ctrl: true, ..m }
        },
        Part::Ctrl => Modifiers { ctrl: true, ..m },
        Part::Alt => Modifiers { alt: true, ..m },
        Part::Shift => Modifiers { shift: true, ..m },
        Part::Meta => Modifiers { meta: true, ..m },
    }
}

pub open spec fn no_modifiers() -> Modifiers {
    Modifiers { ctrl: false, alt: false, shift: false, meta: false }
}

/// The modifier parts read in order: what they hold and which names were
/// used, or the first part that is not a modifier or names one again. A name
/// counts by name rather than by effect: `Mod+Ctrl` is two names for Control
/// on one platform and two different keys on the other, and a table of
/// shortcuts must not parse on one and fail on the other.
pub open spec fn read_parts(parts: Seq<Seq<char>>, platform: Platform) -> Result<(Modifiers, Set<Part>), ErrorView>
    decreases parts.len(),
{
    if parts.len() == 0 {
        Ok((no_modifiers(), Set::empty()))
    } else {
        match read_parts(parts.drop_last(), platform) {
            Err(e) => Err(e),
            Ok((m, named)) => {
                let part = trim_ws(parts.last());
                match modifier_named(part) {
                    None => Err(ErrorView::UnknownModifier(part)),
                    Some(p) => if named.contains(p) {
                        Err(ErrorView::RepeatedModifier(part))
                    } else {
                        Ok((with_part(m, p, platform), named.insert(p)))
                    },
                }
            },
        }
    }
}

/// The pieces of `s` between `+` signs, from position `i` on, where `cur` is
/// the piece already begun. Empty pieces are kept.
pub open spec fn pieces_from(s: Seq<char>, i: int, cur: Seq<char>) -> Seq<Seq<char>>
    decreases s.len() - i,
{
    if i >= s.len() {
        seq![cur]
    } else if s[i] == '+' {
        seq![cur] + pieces_from(s, i + 1, Seq::empty())
    } else {
        pieces_from(s, i + 1, cur.push(s[i]))
    }
}

/// The pieces of `s` between `+` signs (`str::split('+')`).
pub open spec fn pieces(s: Seq<char>) -> Seq<Seq<char>> {
    pieces_from(s, 0, Seq::empty())
}

/// Where the last `+` of `s` is.
pub open spec fn last_plus(s: Seq<char>) -> Option<int>
    decreases s.len(),
{
    if s.len() == 0 {
        None
    } else if s.last() == '+' {
        Some(s.len() - 1)
    } else {
        last_plus(s.drop_last())
    }
}

/// The modifier text and the key text of a trimmed shortcut. The key is the
/// last part; a `+` key is written alone or as the last of two.
pub open spec fn split_key(t: Seq<char>) -> (Option<Seq<char>>, Seq<char>) {
    if t == seq!['+'] {
        (None, seq!['+'])
    } else if ends_with(t, seq!['+', '+']) {
        (Some(t.take(t.len() - 2)), seq!['+'])
    } else {
        match last_plus(t) {
            Some(p) => (Some(t.take(p)), trim_ws(t.skip(p + 1))),
            None => (None, t),
        }
    }
}

/// What parsing `text` for `platform` gives: the key value and the
/// modifiers, or why the text is not a shortcut.
pub open spec fn parsed(text: Seq<char>, platform: Platform) -> Result<(Seq<char>, Modifiers), ErrorView> {
    let t = trim_ws(text);
    if t.len() == 0 {
        Err(ErrorView::Empty)
    } else {
        let (parts, key) = split_key(t);
        if key.len() == 0 || modifier_named(key) is Some {
            Err(ErrorView::MissingKey)
        } else {
            let ps = match parts {
                Some(p) => pieces(p),
                None => Seq::empty(),
            };
            match read_parts(ps, platform) {
                Err(e) => Err(e),
                Ok((m, _)) => match key_value(key) {
                    Ok(k) => Ok((k, m)),
                    Err(e) => Err(e),
                },
            }
        }
    }
}

spec fn piece_views(v: Seq<Vec<char>>) -> Seq<Seq<char>> {
    v.map_values(|w: Vec<char>| w@)
}

fn split_pieces(s: &[char]) -> (r: Vec<Vec<char>>)
    ensures
        piece_views(r@) == pieces(s@),
{
    let mut out: Vec<Vec<char>> = Vec::new();
    let mut cur: Vec<char> = Vec::new();
    let mut i: usize = 0;
    assert(piece_views(out@) + pieces_from(s@, 0, cur@) =~= pieces(s@));
    while i < s.len()
        invariant
            i <= s@.len(),
            piece_views(out@) + pieces_from(s@, i as int, cur@) == pieces(s@),
        decreases s@.len() - i,
    {
        let ghost before = piece_views(out@);
        let ghost c = cur@;
        if s[i] == '+' {
            out.push(cur);
            cur = Vec::new();
            assert(piece_views(out@) =~= before + seq![c]);
            assert(piece_views(out@) + pieces_from(s@, i + 1, cur@) =~= before + (seq![c] + pieces_from(
                s@,
                i + 1,
                Seq::empty(),
            )));
        } else {
            cur.push(s[i]);
        }
        i = i + 1;
    }
    let ghost before = piece_views(out@);
    let ghost c = cur@;
    out.push(cur);
    assert(piece_views(out@) =~= before + seq![c]);
    out
}

fn find_last_plus(s: &[char]) -> (r: Option<usize>)
    ensures
        match r {
            Some(p) => last_plus(s@) == Some(p as int) && p < s@.len(),
            None => last_plus(s@) is None,
        },
{
    let mut n = s.len();
    assert(s@.take(n as int) =~= s@);
    while n > 0
        invariant
            n <= s@.len(),
            last_plus(s@.take(n as int)) == last_plus(s@),
        decreases n,
    {
        if s[n - 1] == '+' {
            return Some(n - 1);
        }
        assert(s@.take(n as int).drop_last() =~= s@.take(n - 1));
        n = n - 1;
    }
    None
}

fn range_of(s: &[char], from: usize, to: usize) -> (r: Vec<char>)
    requires
        from <= to <= s@.len(),
    ensures
        r@ == s@.subrange(from as int, to as int),
{
    let mut r: Vec<char> = Vec::new();
    let mut i = from;
    while i < to
        invariant
            from <= i <= to <= s@.len(),
            r@ == s@.subrange(from as int, i as int),
        decreases to - i,
    {
        r.push(s[i]);
        i = i + 1;
        assert(r@ =~= s@.subrange(from as int, i as int));
    }
    r
}

/// Where in the list of names a part stands.
fn mark(named: &mut Vec<bool>, p: Part) -> (was: bool)
    requires
        old(named)@.len() == 5,
    ensures
        was == old(named)@[part_slot(p)],
        final(named)@ == old(named)@.update(part_slot(p), true),
{
    let slot: usize = match p {
        Part::Mod => 0,
        Part::Ctrl => 1,
        Part::Alt => 2,
        Part::Shift => 3,
        Part::Meta => 4,
    };
    let was = named[slot];
    named.set(slot, true);
    was
}

pub open spec fn part_slot(p: Part) -> int {
    match p {
        Part::Mod => 0,
        Part::Ctrl => 1,
        Part::Alt => 2,
        Part::Shift => 3,
        Part::Meta => 4,
    }
}

fn with_part_of(m: Modifiers, p: Part, platform: Platform) -> (r: Modifiers)
    ensures
        r == with_part(m, p, platform),
{
    let mut m = m;
    match p {
        Part::Mod => {
            if platform == Platform::Mac {
                m.meta = true;
            } else {
                m.ctrl = true;
            }
        },
        Part::Ctrl => m.ctrl = true,
        Part::Alt => m.alt = true,
        Part::Shift => m.shift = true,
        Part::Meta => m.meta = true,
    }
    m
}

proof fn lemma_read_parts_error_stays(parts: Seq<Seq<char>>, platform: Platform, j: int, k: int)
    requires
        0 <= j <= k <= parts.len(),
        read_parts(parts.take(j), platform) is Err,
    ensures
        read_parts(parts.take(k), platform) == read_parts(parts.take(j), platform),
    decreases k - j,
{
    if k > j {
        lemma_read_parts_error_stays(parts, platform, j, k - 1);
        assert(parts.take(k).drop_last() =~= parts.take(k - 1));
    }
}

/// Reads the modifier parts in order.
fn read_modifiers(ps: &Vec<Vec<char>>, platform: Platform) -> (r: Result<Modifiers, ShortcutError>)
    ensures
        match r {
            Ok(m) => read_parts(piece_views(ps@), platform) matches Ok((rm, _)) && rm == m,
            Err(e) => read_parts(piece_views(ps@), platform) == Err::<(Modifiers, Set<Part>), ErrorView>(
                error_view(e),
            ),
        },
{
    let ghost pv = piece_views(ps@);
    let mut modifiers = Modifiers { ctrl: false, alt: false, shift: false, meta: false };
    let mut named: Vec<bool> = vec![false, false, false, false, false];
    let mut i: usize = 0;
    assert(pv.take(0) =~= Seq::<Seq<char>>::empty());
    while i < ps.len()
        invariant
            i <= ps@.len(),
            pv == piece_views(ps@),
            read_parts(pv.take(i as int), platform) matches Ok((m, set)) && (m == modifiers && forall|p: Part|
                #[trigger] set.contains(p) <==> named@[part_slot(p)]),
            named@.len() == 5,
        decreases ps@.len() - i,
    {
        let ghost prefix = pv.take(i as int);
        assert(pv.take(i + 1).drop_last() =~= prefix);
        assert(pv.take(i + 1).last() == ps@[i as int]@);
        let piece = &ps[i];
        let (c, d) = trim_bounds(piece.as_slice(), 0, piece.len());
        assert(piece@.subrange(0, piece@.len() as int) =~= piece@);
        let part = range_of(piece.as_slice(), c, d);
        let which = match modifier(part.as_slice()) {
            Some(w) => w,
            None => {
                proof {
                    lemma_read_parts_error_stays(pv, platform, i + 1, pv.len() as int);
                    assert(pv.take(pv.len() as int) =~= pv);
                }
                return Err(ShortcutError::UnknownModifier(string_of(part.as_slice())));
            },
        };
        let ghost before = named@;
        if mark(&mut named, which) {
            proof {
                lemma_read_parts_error_stays(pv, platform, i + 1, pv.len() as int);
                assert(pv.take(pv.len() as int) =~= pv);
            }
            return Err(ShortcutError::RepeatedModifier(string_of(part.as_slice())));
        }
        modifiers = with_part_of(modifiers, which, platform);
        proof {
            let (m0, set0) = read_parts(prefix, platform)->Ok_0;
            assert forall|p: Part| #[trigger] set0.insert(which).contains(p) <==> named@[part_slot(p)] by {
                if p != which {
                    assert(part_slot(p) != part_slot(which));
                }
            }
        }
        i = i + 1;
    }
    assert(pv.take(i as int) =~= pv);
    Ok(modifiers)
}

impl Shortcut {
    /// Parses `text` for the platform this code runs on.
    pub fn parse(text: &str) -> (r: Result<Shortcut, ShortcutError>)
        ensures
            match r {
                Ok(s) => parsed(text@, Platform::Other) == Ok::<(Seq<char>, Modifiers), ErrorView>(s@),
                Err(e) => parsed(text@, Platform::Other) == Err::<(Seq<char>, Modifiers), ErrorView>(
                    error_view(e),
                ),
            },
    {
        Self::parse_for(text, Platform::current())
    }

    /// Parses `text` with `Mod` standing for `platform`'s command key.
    ///
    /// Modifier and key names are case-insensitive. The last part is the key:
    /// a single character, or a named key such as `Escape`, `ArrowUp`, `F2`
    /// or `Space`.
    pub fn parse_for(text: &str, platform: Platform) -> (r: Result<Shortcut, ShortcutError>)
        ensures
            match r {
                Ok(s) => parsed(text@, platform) == Ok::<(Seq<char>, Modifiers), ErrorView>(s@),
                Err(e) => parsed(text@, platform) == Err::<(Seq<char>, Modifiers), ErrorView>(error_view(e)),
            },
    {
        let all = chars_of(text);
        let (a, b) = trim_bounds(all.as_slice(), 0, all.len());
        assert(all@.subrange(0, all@.len() as int) =~= text@);
        let t = range_of(all.as_slice(), a, b);
        let ghost tv = t@;
        if t.len() == 0 {
            return Err(ShortcutError::Empty);
        }
        let n = t.len();
        // The modifier text, if any, and the key.
        let (parts, key): (Option<Vec<char>>, Vec<char>) = if n == 1 && t[0] == '+' {
            assert(tv =~= seq!['+']);
            (None, vec!['+'])
        } else if n >= 2 && t[n - 1] == '+' && t[n - 2] == '+' {
            assert(ends_with(tv, seq!['+', '+'])) by {
                assert(tv.skip(tv.len() - 2) =~= seq!['+', '+']);
            }
            assert(tv != seq!['+']);
            (Some(range_of(t.as_slice(), 0, n - 2)), vec!['+'])
        } else {
            assert(!ends_with(tv, seq!['+', '+'])) by {
                if ends_with(tv, seq!['+', '+']) {
                    assert(tv.skip(tv.len() - 2)[0] == tv[tv.len() - 2]);
                    assert(tv.skip(tv.len() - 2)[1] == tv[tv.len() - 1]);
                }
            }
            assert(tv != seq!['+']) by {
                if tv == seq!['+'] {
                    assert(tv[0] == '+');
                }
            }
            match find_last_plus(t.as_slice()) {
                Some(p) => {
                    let (c, d) = trim_bounds(t.as_slice(), p + 1, n);
                    assert(tv.skip(p + 1) =~= tv.subrange(p + 1, n as int));
                    (Some(range_of(t.as_slice(), 0, p)), range_of(t.as_slice(), c, d))
                },
                None => (None, t),
            }
        };
        assert(split_key(tv).1 == key@);
        assert(split_key(tv).0 == match parts {
            Some(p) => Some(p@),
            None => None::<Seq<char>>,
        }) by {
            if split_key(tv).0 is Some {
                assert(parts is Some);
            }
        }
        if key.len() == 0 {
            return Err(ShortcutError::MissingKey);
        }
        if modifier(key.as_slice()).is_some() {
            return Err(ShortcutError::MissingKey);
        }
        let ps: Vec<Vec<char>> = match &parts {
            Some(p) => split_pieces(p.as_slice()),
            None => Vec::new(),
        };
        let ghost pv = piece_views(ps@);
        assert(pv == match split_key(tv).0 {
            Some(p) => pieces(p),
            None => Seq::<Seq<char>>::empty(),
        }) by {
            if parts is None {
                assert(pv =~= Seq::<Seq<char>>::empty());
            }
        }
        let modifiers = match read_modifiers(&ps, platform) {
            Ok(m) => m,
            Err(e) => {
                return Err(e);
            },
        };
        let value = match key_value_of(key.as_slice()) {
            Ok(v) => v,
            Err(e) => {
                return Err(e);
            },
        };
        Ok(Shortcut { key: value, modifiers })
    }
}

/// The physical key of a letter or a digit, in `KeyboardEvent.code` terms.
pub open spec fn physical(key: Seq<char>) -> Option<Seq<char>> {
    if key.len() == 1 && is_ascii_lower(key[0]) {
        Some("Key"@ + seq![upper_char(key[0])])
    } else if key.len() == 1 && is_ascii_digit(key[0]) {
        Some("Digit"@ + seq![key[0]])
    } else {
        None
    }
}

/// Whether a key press is the shortcut with key value `key` and modifiers
/// `wanted`.
///
/// Modifiers must match exactly, with one exception: a shortcut on a symbol
/// or a digit does not care about Shift unless it names it, because whether
/// typing `?` or `1` takes Shift is up to the layout. Where the layout
/// produced something other than a letter or a digit, the key's position is
/// the best evidence left.
pub open spec fn answers(key: Seq<char>, wanted: Modifiers, pressed: Seq<char>, code: Seq<char>, held: Modifiers) -> bool {
    if held.ctrl != wanted.ctrl || held.alt != wanted.alt || held.meta != wanted.meta {
        false
    } else {
        let by_value = if key.len() == 1 {
            lower_text(pressed) == key
        } else {
            pressed == key
        };
        if by_value {
            let layout_decides = key.len() == 1 && !alphabetic(key[0]) && !white_space(key[0]);
            held.shift == wanted.shift || (layout_decides && !wanted.shift)
        } else {
            let produced_alphanumeric = pressed.len() == 1 && is_ascii_alphanumeric(pressed[0]);
            !produced_alphanumeric && held.shift == wanted.shift && physical(key) == Some(code)
        }
    }
}

fn physical_of(key: &[char]) -> (r: Option<String>)
    ensures
        match r {
            Some(c) => physical(key@) == Some(c@),
            None => physical(key@) is None,
        },
{
    if key.len() != 1 {
        return None;
    }
    let c = key[0];
    if 'a' <= c && c <= 'z' {
        let mut out = String::new();
        push_str(&mut out, "Key");
        push_char(&mut out, ascii_upper_char(c));
        Some(out)
    } else if '0' <= c && c <= '9' {
        let mut out = String::new();
        push_str(&mut out, "Digit");
        push_char(&mut out, c);
        Some(out)
    } else {
        None
    }
}

/// The name a key value prints as: `Space` and `Plus` for the keys that
/// cannot be written as themselves, a character in its upper case, and a
/// named key as it is.
pub open spec fn key_label(key: Seq<char>) -> Seq<char> {
    if key == seq![' '] {
        "Space"@
    } else if key == seq!['+'] {
        "Plus"@
    } else if key.len() == 1 {
        upper_of(key[0])
    } else {
        key
    }
}

/// A shortcut in `aria-keyshortcuts` form, such as `Control+Shift+K`.
pub open spec fn aria_text(key: Seq<char>, m: Modifiers) -> Seq<char> {
    (if m.ctrl {
        "Control+"@
    } else {
        Seq::empty()
    }) + (if m.alt {
        "Alt+"@
    } else {
        Seq::empty()
    }) + (if m.shift {
        "Shift+"@
    } else {
        Seq::empty()
    }) + (if m.meta {
        "Meta+"@
    } else {
        Seq::empty()
    }) + key_label(key)
}

impl Shortcut {
    /// Whether `stroke` is this shortcut.
    pub fn matches_keystroke(&self, stroke: &Keystroke) -> (r: bool)
        ensures
            r == answers(self@.0, self@.1, stroke.key@, stroke.code@, stroke.modifiers),
    {
        let wanted = self.modifiers;
        let held = stroke.modifiers;
        if held.ctrl != wanted.ctrl || held.alt != wanted.alt || held.meta != wanted.meta {
            return false;
        }
        let key = chars_of(self.key.as_str());
        let by_value = if key.len() == 1 {
            let pressed = str_to_lowercase(stroke.key);
            str_eq(pressed.as_str(), self.key.as_str())
        } else {
            str_eq(stroke.key, self.key.as_str())
        };
        if by_value {
            let layout_decides = key.len() == 1 && !is_alphabetic(key[0]) && !is_whitespace(key[0]);
            return held.shift == wanted.shift || (layout_decides && !wanted.shift);
        }
        let pressed = chars_of(stroke.key);
        let produced_alphanumeric = pressed.len() == 1 && (('0' <= pressed[0] && pressed[0] <= '9') || ('a'
            <= pressed[0] && pressed[0] <= 'z') || ('A' <= pressed[0] && pressed[0] <= 'Z'));
        if produced_alphanumeric || held.shift != wanted.shift {
            return false;
        }
        match physical_of(key.as_slice()) {
            Some(code) => str_eq(code.as_str(), stroke.code),
            None => false,
        }
    }

    /// The shortcut in `aria-keyshortcuts` form, such as `Control+Shift+K`.
    pub fn aria(&self) -> (r: String)
        ensures
            r@ == aria_text(self@.0, self@.1),
    {
        let m = self.modifiers;
        let mut out = String::new();
        if m.ctrl {
            push_str(&mut out, "Control+");
        }
        let ghost a = out@;
        if m.alt {
            push_str(&mut out, "Alt+");
        }
        let ghost b = out@;
        if m.shift {
            push_str(&mut out, "Shift+");
        }
        let ghost c = out@;
        if m.meta {
            push_str(&mut out, "Meta+");
        }
        let ghost d = out@;
        let key = chars_of(self.key.as_str());
        if key.len() == 1 && key[0] == ' ' {
            push_str(&mut out, "Space");
        } else if key.len() == 1 && key[0] == '+' {
            push_str(&mut out, "Plus");
        } else if key.len() == 1 {
            let up = char_to_uppercase(key[0]);
            push_str(&mut out, up.as_str());
        } else {
            push_str(&mut out, self.key.as_str());
        }
        proof {
            let prefix = (if m.ctrl {
                "Control+"@
            } else {
                Seq::empty()
            }) + (if m.alt {
                "Alt+"@
            } else {
                Seq::empty()
            }) + (if m.shift {
                "Shift+"@
            } else {
                Seq::empty()
            }) + (if m.meta {
                "Meta+"@
            } else {
                Seq::empty()
            });
            assert(d =~= prefix);
            if key@.len() == 1 {
                if key@[0] == ' ' {
                    assert(key@ =~= seq![' ']);
                } else if key@[0] == '+' {
                    assert(key@ =~= seq!['+']);
                }
            } else {
                assert(key@ != seq![' ']);
                assert(key@ != seq!['+']);
            }
            assert(out@ =~= aria_text(self.key@, self.modifiers));
        }
        out
    }

    /// The key value this shortcut answers to.
    pub fn key(&self) -> (r: &str)
        ensures
            r@ == self@.0,
    {
        self.key.as_str()
    }

    /// The modifiers held with the key.
    pub fn modifiers(&self) -> (r: Modifiers)
        ensures
            r == self@.1,
    {
        self.modifiers
    }
}

// ------------------------------------------------------------- reading back

/// Whether `s` holds no `+`.
pub open spec fn no_plus(s: Seq<char>) -> bool {
    forall|i: int| 0 <= i < s.len() ==> s[i] != '+'
}

proof fn lemma_pieces_split(x: Seq<char>, b: Seq<char>, i: int, cur: Seq<char>)
    requires
        0 <= i <= x.len(),
        no_plus(b),
    ensures
        pieces_from(x + seq!['+'] + b, i, cur) == pieces_from(x, i, cur).push(b),
    decreases x.len() - i,
{
    let s = x + seq!['+'] + b;
    if i == x.len() {
        assert(s[i] == '+');
        let rest = s.skip(i + 1);
        assert(rest =~= b);
        assert(no_plus(s.skip(i + 1)));
        lemma_plain_shift(s, i + 1);
        assert(Seq::<char>::empty() + b =~= b);
    } else {
        assert(s[i] == x[i]);
        lemma_pieces_split(x, b, i + 1, Seq::empty());
        lemma_pieces_split(x, b, i + 1, cur.push(x[i]));
        if x[i] == '+' {
            assert(seq![cur] + pieces_from(x, i + 1, Seq::empty()).push(b) =~= (seq![cur] + pieces_from(
                x,
                i + 1,
                Seq::empty(),
            )).push(b));
        }
    }
}

proof fn lemma_plain_shift(s: Seq<char>, j: int)
    requires
        0 <= j <= s.len(),
        no_plus(s.skip(j)),
    ensures
        pieces_from(s, j, Seq::empty()) == seq![s.skip(j)],
    decreases s.len() - j,
{
    lemma_plain_tail(s, j, Seq::empty());
    assert(Seq::<char>::empty() + s.skip(j) =~= s.skip(j));
}

proof fn lemma_plain_tail(s: Seq<char>, j: int, cur: Seq<char>)
    requires
        0 <= j <= s.len(),
        no_plus(s.skip(j)),
    ensures
        pieces_from(s, j, cur) == seq![cur + s.skip(j)],
    decreases s.len() - j,
{
    if j < s.len() {
        assert(s.skip(j)[0] == s[j]);
        assert(s.skip(j + 1) =~= s.skip(j).drop_first());
        lemma_plain_tail(s, j + 1, cur.push(s[j]));
        assert(cur.push(s[j]) + s.skip(j + 1) =~= cur + s.skip(j));
    } else {
        assert(cur + s.skip(j) =~= cur);
    }
}

/// The names the `aria-keyshortcuts` form gives the modifiers held, in the
/// order it gives them.
pub open spec fn modifier_labels(m: Modifiers) -> Seq<Seq<char>> {
    (if m.ctrl {
        seq!["Control"@]
    } else {
        Seq::empty()
    }) + (if m.alt {
        seq!["Alt"@]
    } else {
        Seq::empty()
    }) + (if m.shift {
        seq!["Shift"@]
    } else {
        Seq::empty()
    }) + (if m.meta {
        seq!["Meta"@]
    } else {
        Seq::empty()
    })
}

proof fn lemma_pieces_of_joined(names: Seq<Seq<char>>)
    requires
        names.len() >= 1,
        forall|i: int| 0 <= i < names.len() ==> no_plus(#[trigger] names[i]),
    ensures
        pieces(joined(names, seq!['+'])) == names,
    decreases names.len(),
{
    if names.len() == 1 {
        lemma_plain_tail(names[0], 0, Seq::empty());
        assert(Seq::<char>::empty() + names[0].skip(0) =~= names[0]);
        assert(seq![names[0]] =~= names);
    } else {
        let init = names.drop_last();
        assert forall|i: int| 0 <= i < init.len() implies no_plus(#[trigger] init[i]) by {
            assert(init[i] == names[i]);
        }
        lemma_pieces_of_joined(init);
        lemma_pieces_split(joined(init, seq!['+']), names.last(), 0, Seq::empty());
        assert(init.push(names.last()) =~= names);
    }
}

proof fn lemma_modifier_words()
    ensures
        modifier_named("Control"@) == Some(Part::Ctrl),
        modifier_named("Alt"@) == Some(Part::Alt),
        modifier_named("Shift"@) == Some(Part::Shift),
        modifier_named("Meta"@) == Some(Part::Meta),
        trim_ws("Control"@) == "Control"@,
        trim_ws("Alt"@) == "Alt"@,
        trim_ws("Shift"@) == "Shift"@,
        trim_ws("Meta"@) == "Meta"@,
        no_plus("Control"@) && no_plus("Alt"@) && no_plus("Shift"@) && no_plus("Meta"@),
        "Control+"@ == "Control"@ + seq!['+'],
        "Alt+"@ == "Alt"@ + seq!['+'],
        "Shift+"@ == "Shift"@ + seq!['+'],
        "Meta+"@ == "Meta"@ + seq!['+'],
{
    reveal_strlit("Control");
    reveal_strlit("Alt");
    reveal_strlit("Shift");
    reveal_strlit("Meta");
    reveal_strlit("control");
    reveal_strlit("alt");
    reveal_strlit("shift");
    reveal_strlit("meta");
    reveal_strlit("mod");
    reveal_strlit("ctrl");
    reveal_strlit("option");
    reveal_strlit("opt");
    reveal_strlit("cmd");
    reveal_strlit("command");
    reveal_strlit("Control+");
    reveal_strlit("Alt+");
    reveal_strlit("Shift+");
    reveal_strlit("Meta+");
    assert(lower("Control"@) =~= "control"@);
    assert(lower("Alt"@) =~= "alt"@);
    assert(lower("Shift"@) =~= "shift"@);
    assert(lower("Meta"@) =~= "meta"@);
    assert(lower("Control"@) != "mod"@);
    assert("alt"@[0] != "mod"@[0]);
    assert(lower("Alt"@) != "mod"@);
    assert(lower("Alt"@) != "ctrl"@);
    assert(lower("Alt"@) != "control"@);
    assert(lower("Shift"@) != "mod"@);
    assert(lower("Meta"@) != "mod"@);
    assert("control"@ != "mod"@);
    assert("shift"@ != "ctrl"@);
    assert("meta"@[0] != "ctrl"@[0]);
    assert("meta"@ != "ctrl"@);
    assert("Control+"@ =~= "Control"@ + seq!['+']);
    assert("Alt+"@ =~= "Alt"@ + seq!['+']);
    assert("Shift+"@ =~= "Shift"@ + seq!['+']);
    assert("Meta+"@ =~= "Meta"@ + seq!['+']);
}

#[verifier::spinoff_prover]
#[verifier::rlimit(40)]
proof fn lemma_aria_shape(key: Seq<char>, m: Modifiers)
    ensures
        aria_text(key, m) == (if modifier_labels(m).len() == 0 {
            key_label(key)
        } else {
            joined(modifier_labels(m), seq!['+']) + seq!['+'] + key_label(key)
        }),
{
    lemma_modifier_words();
    reveal_with_fuel(joined, 5);
    let c = if m.ctrl { seq!["Control"@] } else { Seq::empty() };
    let a = if m.alt { seq!["Alt"@] } else { Seq::empty() };
    let s = if m.shift { seq!["Shift"@] } else { Seq::empty() };
    let t = if m.meta { seq!["Meta"@] } else { Seq::empty() };
    assert(modifier_labels(m) =~= c + a + s + t);
    let labels = c + a + s + t;
    assert(aria_text(key, m) =~= (if labels.len() == 0 {
        key_label(key)
    } else {
        joined(labels, seq!['+']) + seq!['+'] + key_label(key)
    }));
}

proof fn lemma_read_one_more(names: Seq<Seq<char>>, name: Seq<char>, part: Part, platform: Platform)
    requires
        read_parts(names, platform) is Ok,
        trim_ws(name) == name,
        modifier_named(name) == Some(part),
        !read_parts(names, platform)->Ok_0.1.contains(part),
    ensures
        read_parts(names.push(name), platform) == Ok::<(Modifiers, Set<Part>), ErrorView>(
            (
                with_part(read_parts(names, platform)->Ok_0.0, part, platform),
                read_parts(names, platform)->Ok_0.1.insert(part),
            ),
        ),
{
    assert(names.push(name).drop_last() =~= names);
}

/// The modifier names of the `aria-keyshortcuts` form read back as the
/// modifiers they were printed from, on any platform.
proof fn lemma_labels_read_back(m: Modifiers, platform: Platform)
    ensures
        match read_parts(modifier_labels(m), platform) {
            Ok((held, _)) => held == m,
            Err(_) => false,
        },
{
    lemma_modifier_words();
    let none = Seq::<Seq<char>>::empty();
    let c = if m.ctrl { none.push("Control"@) } else { none };
    if m.ctrl {
        lemma_read_one_more(none, "Control"@, Part::Ctrl, platform);
    }
    let a = if m.alt { c.push("Alt"@) } else { c };
    if m.alt {
        lemma_read_one_more(c, "Alt"@, Part::Alt, platform);
    }
    let s = if m.shift { a.push("Shift"@) } else { a };
    if m.shift {
        lemma_read_one_more(a, "Shift"@, Part::Shift, platform);
    }
    let t = if m.meta { s.push("Meta"@) } else { s };
    if m.meta {
        lemma_read_one_more(s, "Meta"@, Part::Meta, platform);
    }
    assert(modifier_labels(m) =~= t);
}

proof fn lemma_digit_char(d: nat)
    requires
        d < 10,
    ensures
        digit_char(d) as u32 == 48 + d,
        is_ascii_digit(digit_char(d)),
{
    let b: u8 = (48 + d) as u8;
    assert(b == 48 + d);
    assert(b as char as u32 == b as u32);
}

proof fn lemma_decimal_reads_back(n: nat)
    ensures
        decimal(n).len() >= 1,
        all_digits(decimal(n)),
        no_plus(decimal(n)),
        lower(decimal(n)) == decimal(n),
        digits_value(decimal(n)) == n,
    decreases n,
{
    if n >= 10 {
        lemma_decimal_reads_back(n / 10);
        let d = decimal(n / 10);
        let c = digit_char(n % 10);
        lemma_digit_char(n % 10);
        assert(decimal(n) == d.push(c));
        assert(decimal(n).drop_last() =~= d);
        assert(decimal(n).last() == c);
        assert(digits_value(decimal(n)) == digits_value(d) * 10 + ((c as u32) - 48) as nat);
        assert((n / 10) * 10 + n % 10 == n);
        assert(lower(decimal(n)) =~= lower(d).push(lower_char(c)));
    } else {
        lemma_digit_char(n);
        assert(decimal(n) =~= seq![digit_char(n)]);
        assert(decimal(n).drop_last() =~= Seq::<char>::empty());
        assert(digits_value(decimal(n)) == digits_value(Seq::<char>::empty()) * 10 + ((digit_char(n) as u32) - 48) as nat);
        assert(lower(decimal(n)) =~= seq![lower_char(digit_char(n))]);
    }
}

proof fn lemma_lookup_found(t: Seq<(Seq<char>, Seq<char>)>, a: Seq<char>, i: int)
    requires
        lookup_from(t, a, i) is Some,
    ensures
        exists|j: int| i <= j < t.len() && #[trigger] t[j] == (a, lookup_from(t, a, i)->0),
    decreases t.len() - i,
{
    if 0 <= i < t.len() && t[i].0 != a {
        lemma_lookup_found(t, a, i + 1);
    } else {
        assert(t[i] == (a, lookup_from(t, a, i)->0));
    }
}

proof fn lemma_lookup_absent(t: Seq<(Seq<char>, Seq<char>)>, a: Seq<char>, i: int)
    requires
        0 <= i,
        forall|j: int| i <= j < t.len() ==> (#[trigger] t[j]).0 != a,
    ensures
        lookup_from(t, a, i) is None,
    decreases t.len() - i,
{
    if i < t.len() {
        lemma_lookup_absent(t, a, i + 1);
    }
}

/// The table of named keys, entry by entry.
#[verifier::spinoff_prover]
#[verifier::rlimit(40)]
proof fn lemma_named_entries()
    ensures
        named_keys().len() == 23,
        named_keys()[0] == ("escape"@, "Escape"@),
        named_keys()[1] == ("esc"@, "Escape"@),
        named_keys()[2] == ("enter"@, "Enter"@),
        named_keys()[3] == ("return"@, "Enter"@),
        named_keys()[4] == ("tab"@, "Tab"@),
        named_keys()[5] == ("space"@, " "@),
        named_keys()[6] == ("backspace"@, "Backspace"@),
        named_keys()[7] == ("delete"@, "Delete"@),
        named_keys()[8] == ("del"@, "Delete"@),
        named_keys()[9] == ("insert"@, "Insert"@),
        named_keys()[10] == ("home"@, "Home"@),
        named_keys()[11] == ("end"@, "End"@),
        named_keys()[12] == ("pageup"@, "PageUp"@),
        named_keys()[13] == ("pagedown"@, "PageDown"@),
        named_keys()[14] == ("arrowup"@, "ArrowUp"@),
        named_keys()[15] == ("up"@, "ArrowUp"@),
        named_keys()[16] == ("arrowdown"@, "ArrowDown"@),
        named_keys()[17] == ("down"@, "ArrowDown"@),
        named_keys()[18] == ("arrowleft"@, "ArrowLeft"@),
        named_keys()[19] == ("left"@, "ArrowLeft"@),
        named_keys()[20] == ("arrowright"@, "ArrowRight"@),
        named_keys()[21] == ("right"@, "ArrowRight"@),
        named_keys()[22] == ("plus"@, "+"@),
{
    let t = named_keys();
}

/// Every name in the table is at least two letters long.
proof fn lemma_named_aliases(i: int)
    requires
        0 <= i < 23,
    ensures
        named_keys()[i].0.len() >= 2,
        is_ascii_lower(named_keys()[i].0[1]),
{
    lemma_named_entries();
    if i == 0 {
        reveal_strlit("escape");
    }
    if i == 1 {
        reveal_strlit("esc");
    }
    if i == 2 {
        reveal_strlit("enter");
    }
    if i == 3 {
        reveal_strlit("return");
    }
    if i == 4 {
        reveal_strlit("tab");
    }
    if i == 5 {
        reveal_strlit("space");
    }
    if i == 6 {
        reveal_strlit("backspace");
    }
    if i == 7 {
        reveal_strlit("delete");
    }
    if i == 8 {
        reveal_strlit("del");
    }
    if i == 9 {
        reveal_strlit("insert");
    }
    if i == 10 {
        reveal_strlit("home");
    }
    if i == 11 {
        reveal_strlit("end");
    }
    if i == 12 {
        reveal_strlit("pageup");
    }
    if i == 13 {
        reveal_strlit("pagedown");
    }
    if i == 14 {
        reveal_strlit("arrowup");
    }
    if i == 15 {
        reveal_strlit("up");
    }
    if i == 16 {
        reveal_strlit("arrowdown");
    }
    if i == 17 {
        reveal_strlit("down");
    }
    if i == 18 {
        reveal_strlit("arrowleft");
    }
    if i == 19 {
        reveal_strlit("left");
    }
    if i == 20 {
        reveal_strlit("arrowright");
    }
    if i == 21 {
        reveal_strlit("right");
    }
    if i == 22 {
        reveal_strlit("plus");
    }
}

/// What every named key value longer than one character prints as: text
/// with no white space at either end, no `+`, and not a modifier's name.
pub open spec fn prints_plainly(v: Seq<char>) -> bool {
    &&& v.len() >= 1
    &&& !white_space(v[0])
    &&& !white_space(v.last())
    &&& no_plus(v)
    &&& modifier_named(v) is None
}

#[verifier::spinoff_prover]
#[verifier::rlimit(40)]
proof fn lemma_named_values(i: int)
    requires
        0 <= i < 23,
        named_keys()[i].1.len() != 1,
    ensures
        prints_plainly(named_keys()[i].1),
        named_key(lower(named_keys()[i].1)) == Some(named_keys()[i].1),
{
    lemma_named_entries();
    reveal_strlit("mod");
    reveal_strlit("ctrl");
    reveal_strlit("control");
    reveal_strlit("alt");
    reveal_strlit("option");
    reveal_strlit("opt");
    reveal_strlit("shift");
    reveal_strlit("meta");
    reveal_strlit("cmd");
    reveal_strlit("command");
    reveal_strlit(" ");
    reveal_strlit("+");
    if named_keys()[i].1 == "Escape"@ {
        lemma_value_plain_escape();
    } else if named_keys()[i].1 == "Enter"@ {
        lemma_value_plain_enter();
    } else if named_keys()[i].1 == "Tab"@ {
        lemma_value_plain_tab();
    } else if named_keys()[i].1 == "Backspace"@ {
        lemma_value_plain_backspace();
    } else if named_keys()[i].1 == "Delete"@ {
        lemma_value_plain_delete();
    } else if named_keys()[i].1 == "Insert"@ {
        lemma_value_plain_insert();
    } else if named_keys()[i].1 == "Home"@ {
        lemma_value_plain_home();
    } else if named_keys()[i].1 == "End"@ {
        lemma_value_plain_end();
    } else if named_keys()[i].1 == "PageUp"@ {
        lemma_value_plain_pageup();
    } else if named_keys()[i].1 == "PageDown"@ {
        lemma_value_plain_pagedown();
    } else if named_keys()[i].1 == "ArrowUp"@ {
        lemma_value_plain_arrowup();
    } else if named_keys()[i].1 == "ArrowDown"@ {
        lemma_value_plain_arrowdown();
    } else if named_keys()[i].1 == "ArrowLeft"@ {
        lemma_value_plain_arrowleft();
    } else if named_keys()[i].1 == "ArrowRight"@ {
        lemma_value_plain_arrowright();
    }
}

#[verifier::spinoff_prover]
proof fn lemma_value_plain_escape()
    ensures
        prints_plainly("Escape"@),
        named_key(lower("Escape"@)) == Some("Escape"@),
{
    lemma_named_entries();
    reveal_with_fuel(lookup_from, 24);
    reveal_strlit("Escape");
    reveal_strlit("escape");
    assert(lower("Escape"@) =~= "escape"@);
    reveal_strlit("mod");
    reveal_strlit("ctrl");
    reveal_strlit("control");
    reveal_strlit("alt");
    reveal_strlit("option");
    reveal_strlit("opt");
    reveal_strlit("shift");
    reveal_strlit("meta");
    reveal_strlit("cmd");
    reveal_strlit("command");
    reveal_strlit("Escape");
    reveal_strlit("escape");
    assert(lower("Escape"@) =~= "escape"@);
    assert("escape"@[0] != "option"@[0]);
}

#[verifier::spinoff_prover]
proof fn lemma_value_plain_enter()
    ensures
        prints_plainly("Enter"@),
        named_key(lower("Enter"@)) == Some("Enter"@),
{
    lemma_named_entries();
    reveal_with_fuel(lookup_from, 24);
    reveal_strlit("Enter");
    reveal_strlit("enter");
    assert(lower("Enter"@) =~= "enter"@);
    reveal_strlit("esc");
    reveal_strlit("escape");
    reveal_strlit("mod");
    reveal_strlit("ctrl");
    reveal_strlit("control");
    reveal_strlit("alt");
    reveal_strlit("option");
    reveal_strlit("opt");
    reveal_strlit("shift");
    reveal_strlit("meta");
    reveal_strlit("cmd");
    reveal_strlit("command");
    reveal_strlit("Enter");
    reveal_strlit("enter");
    assert(lower("Enter"@) =~= "enter"@);
    assert("enter"@[0] != "shift"@[0]);
}

#[verifier::spinoff_prover]
proof fn lemma_value_plain_tab()
    ensures
        prints_plainly("Tab"@),
        named_key(lower("Tab"@)) == Some("Tab"@),
{
    lemma_named_entries();
    reveal_with_fuel(lookup_from, 24);
    reveal_strlit("Tab");
    reveal_strlit("tab");
    assert(lower("Tab"@) =~= "tab"@);
    reveal_strlit("enter");
    reveal_strlit("esc");
    reveal_strlit("escape");
    reveal_strlit("return");
    assert("tab"@[0] != "esc"@[0]);
    reveal_strlit("mod");
    reveal_strlit("ctrl");
    reveal_strlit("control");
    reveal_strlit("alt");
    reveal_strlit("option");
    reveal_strlit("opt");
    reveal_strlit("shift");
    reveal_strlit("meta");
    reveal_strlit("cmd");
    reveal_strlit("command");
    reveal_strlit("Tab");
    reveal_strlit("tab");
    assert(lower("Tab"@) =~= "tab"@);
    assert("tab"@[0] != "mod"@[0]);
    assert("tab"@[0] != "alt"@[0]);
    assert("tab"@[0] != "opt"@[0]);
    assert("tab"@[0] != "cmd"@[0]);
}

#[verifier::spinoff_prover]
proof fn lemma_value_plain_backspace()
    ensures
        prints_plainly("Backspace"@),
        named_key(lower("Backspace"@)) == Some("Backspace"@),
{
    lemma_named_entries();
    reveal_with_fuel(lookup_from, 24);
    reveal_strlit("Backspace");
    reveal_strlit("backspace");
    assert(lower("Backspace"@) =~= "backspace"@);
    reveal_strlit("enter");
    reveal_strlit("esc");
    reveal_strlit("escape");
    reveal_strlit("return");
    reveal_strlit("space");
    reveal_strlit("tab");
    reveal_strlit("mod");
    reveal_strlit("ctrl");
    reveal_strlit("control");
    reveal_strlit("alt");
    reveal_strlit("option");
    reveal_strlit("opt");
    reveal_strlit("shift");
    reveal_strlit("meta");
    reveal_strlit("cmd");
    reveal_strlit("command");
    reveal_strlit("Backspace");
    reveal_strlit("backspace");
    assert(lower("Backspace"@) =~= "backspace"@);
}

#[verifier::spinoff_prover]
proof fn lemma_value_plain_delete()
    ensures
        prints_plainly("Delete"@),
        named_key(lower("Delete"@)) == Some("Delete"@),
{
    lemma_named_entries();
    reveal_with_fuel(lookup_from, 24);
    reveal_strlit("Delete");
    reveal_strlit("delete");
    assert(lower("Delete"@) =~= "delete"@);
    reveal_strlit("backspace");
    reveal_strlit("enter");
    reveal_strlit("esc");
    reveal_strlit("escape");
    reveal_strlit("return");
    reveal_strlit("space");
    reveal_strlit("tab");
    assert("delete"@[0] != "escape"@[0]);
    assert("delete"@[0] != "return"@[0]);
    reveal_strlit("mod");
    reveal_strlit("ctrl");
    reveal_strlit("control");
    reveal_strlit("alt");
    reveal_strlit("option");
    reveal_strlit("opt");
    reveal_strlit("shift");
    reveal_strlit("meta");
    reveal_strlit("cmd");
    reveal_strlit("command");
    reveal_strlit("Delete");
    reveal_strlit("delete");
    assert(lower("Delete"@) =~= "delete"@);
    assert("delete"@[0] != "option"@[0]);
}

#[verifier::spinoff_prover]
proof fn lemma_value_plain_insert()
    ensures
        prints_plainly("Insert"@),
        named_key(lower("Insert"@)) == Some("Insert"@),
{
    lemma_named_entries();
    reveal_with_fuel(lookup_from, 24);
    reveal_strlit("Insert");
    reveal_strlit("insert");
    assert(lower("Insert"@) =~= "insert"@);
    reveal_strlit("backspace");
    reveal_strlit("del");
    reveal_strlit("delete");
    reveal_strlit("enter");
    reveal_strlit("esc");
    reveal_strlit("escape");
    reveal_strlit("return");
    reveal_strlit("space");
    reveal_strlit("tab");
    assert("insert"@[0] != "escape"@[0]);
    assert("insert"@[0] != "return"@[0]);
    assert("insert"@[0] != "delete"@[0]);
    reveal_strlit("mod");
    reveal_strlit("ctrl");
    reveal_strlit("control");
    reveal_strlit("alt");
    reveal_strlit("option");
    reveal_strlit("opt");
    reveal_strlit("shift");
    reveal_strlit("meta");
    reveal_strlit("cmd");
    reveal_strlit("command");
    reveal_strlit("Insert");
    reveal_strlit("insert");
    assert(lower("Insert"@) =~= "insert"@);
    assert("insert"@[0] != "option"@[0]);
}

#[verifier::spinoff_prover]
proof fn lemma_value_plain_home()
    ensures
        prints_plainly("Home"@),
        named_key(lower("Home"@)) == Some("Home"@),
{
    lemma_named_entries();
    reveal_with_fuel(lookup_from, 24);
    reveal_strlit("Home");
    reveal_strlit("home");
    assert(lower("Home"@) =~= "home"@);
    reveal_strlit("backspace");
    reveal_strlit("del");
    reveal_strlit("delete");
    reveal_strlit("enter");
    reveal_strlit("esc");
    reveal_strlit("escape");
    reveal_strlit("insert");
    reveal_strlit("return");
    reveal_strlit("space");
    reveal_strlit("tab");
    reveal_strlit("mod");
    reveal_strlit("ctrl");
    reveal_strlit("control");
    reveal_strlit("alt");
    reveal_strlit("option");
    reveal_strlit("opt");
    reveal_strlit("shift");
    reveal_strlit("meta");
    reveal_strlit("cmd");
    reveal_strlit("command");
    reveal_strlit("Home");
    reveal_strlit("home");
    assert(lower("Home"@) =~= "home"@);
    assert("home"@[0] != "ctrl"@[0]);
    assert("home"@[0] != "meta"@[0]);
}

#[verifier::spinoff_prover]
proof fn lemma_value_plain_end()
    ensures
        prints_plainly("End"@),
        named_key(lower("End"@)) == Some("End"@),
{
    lemma_named_entries();
    reveal_with_fuel(lookup_from, 24);
    reveal_strlit("End");
    reveal_strlit("end");
    assert(lower("End"@) =~= "end"@);
    reveal_strlit("backspace");
    reveal_strlit("del");
    reveal_strlit("delete");
    reveal_strlit("enter");
    reveal_strlit("esc");
    reveal_strlit("escape");
    reveal_strlit("home");
    reveal_strlit("insert");
    reveal_strlit("return");
    reveal_strlit("space");
    reveal_strlit("tab");
    assert("end"@[1] != "esc"@[1]);
    assert("end"@[0] != "tab"@[0]);
    assert("end"@[0] != "del"@[0]);
    reveal_strlit("mod");
    reveal_strlit("ctrl");
    reveal_strlit("control");
    reveal_strlit("alt");
    reveal_strlit("option");
    reveal_strlit("opt");
    reveal_strlit("shift");
    reveal_strlit("meta");
    reveal_strlit("cmd");
    reveal_strlit("command");
    reveal_strlit("End");
    reveal_strlit("end");
    assert(lower("End"@) =~= "end"@);
    assert("end"@[0] != "mod"@[0]);
    assert("end"@[0] != "alt"@[0]);
    assert("end"@[0] != "opt"@[0]);
    assert("end"@[0] != "cmd"@[0]);
}

#[verifier::spinoff_prover]
proof fn lemma_value_plain_pageup()
    ensures
        prints_plainly("PageUp"@),
        named_key(lower("PageUp"@)) == Some("PageUp"@),
{
    lemma_named_entries();
    reveal_with_fuel(lookup_from, 24);
    reveal_strlit("PageUp");
    reveal_strlit("pageup");
    assert(lower("PageUp"@) =~= "pageup"@);
    reveal_strlit("backspace");
    reveal_strlit("del");
    reveal_strlit("delete");
    reveal_strlit("end");
    reveal_strlit("enter");
    reveal_strlit("esc");
    reveal_strlit("escape");
    reveal_strlit("home");
    reveal_strlit("insert");
    reveal_strlit("return");
    reveal_strlit("space");
    reveal_strlit("tab");
    assert("pageup"@[0] != "escape"@[0]);
    assert("pageup"@[0] != "return"@[0]);
    assert("pageup"@[0] != "delete"@[0]);
    assert("pageup"@[0] != "insert"@[0]);
    reveal_strlit("mod");
    reveal_strlit("ctrl");
    reveal_strlit("control");
    reveal_strlit("alt");
    reveal_strlit("option");
    reveal_strlit("opt");
    reveal_strlit("shift");
    reveal_strlit("meta");
    reveal_strlit("cmd");
    reveal_strlit("command");
    reveal_strlit("PageUp");
    reveal_strlit("pageup");
    assert(lower("PageUp"@) =~= "pageup"@);
    assert("pageup"@[0] != "option"@[0]);
}

#[verifier::spinoff_prover]
proof fn lemma_value_plain_pagedown()
    ensures
        prints_plainly("PageDown"@),
        named_key(lower("PageDown"@)) == Some("PageDown"@),
{
    lemma_named_entries();
    reveal_with_fuel(lookup_from, 24);
    reveal_strlit("PageDown");
    reveal_strlit("pagedown");
    assert(lower("PageDown"@) =~= "pagedown"@);
    reveal_strlit("backspace");
    reveal_strlit("del");
    reveal_strlit("delete");
    reveal_strlit("end");
    reveal_strlit("enter");
    reveal_strlit("esc");
    reveal_strlit("escape");
    reveal_strlit("home");
    reveal_strlit("insert");
    reveal_strlit("pageup");
    reveal_strlit("return");
    reveal_strlit("space");
    reveal_strlit("tab");
    reveal_strlit("mod");
    reveal_strlit("ctrl");
    reveal_strlit("control");
    reveal_strlit("alt");
    reveal_strlit("option");
    reveal_strlit("opt");
    reveal_strlit("shift");
    reveal_strlit("meta");
    reveal_strlit("cmd");
    reveal_strlit("command");
    reveal_strlit("PageDown");
    reveal_strlit("pagedown");
    assert(lower("PageDown"@) =~= "pagedown"@);
}

#[verifier::spinoff_prover]
proof fn lemma_value_plain_arrowup()
    ensures
        prints_plainly("ArrowUp"@),
        named_key(lower("ArrowUp"@)) == Some("ArrowUp"@),
{
    lemma_named_entries();
    reveal_with_fuel(lookup_from, 24);
    reveal_strlit("ArrowUp");
    reveal_strlit("arrowup");
    assert(lower("ArrowUp"@) =~= "arrowup"@);
    reveal_strlit("backspace");
    reveal_strlit("del");
    reveal_strlit("delete");
    reveal_strlit("end");
    reveal_strlit("enter");
    reveal_strlit("esc");
    reveal_strlit("escape");
    reveal_strlit("home");
    reveal_strlit("insert");
    reveal_strlit("pagedown");
    reveal_strlit("pageup");
    reveal_strlit("return");
    reveal_strlit("space");
    reveal_strlit("tab");
    reveal_strlit("mod");
    reveal_strlit("ctrl");
    reveal_strlit("control");
    reveal_strlit("alt");
    reveal_strlit("option");
    reveal_strlit("opt");
    reveal_strlit("shift");
    reveal_strlit("meta");
    reveal_strlit("cmd");
    reveal_strlit("command");
    reveal_strlit("ArrowUp");
    reveal_strlit("arrowup");
    assert(lower("ArrowUp"@) =~= "arrowup"@);
    assert("arrowup"@[0] != "control"@[0]);
    assert("arrowup"@[0] != "command"@[0]);
}

#[verifier::spinoff_prover]
proof fn lemma_value_plain_arrowdown()
    ensures
        prints_plainly("ArrowDown"@),
        named_key(lower("ArrowDown"@)) == Some("ArrowDown"@),
{
    lemma_named_entries();
    reveal_with_fuel(lookup_from, 24);
    reveal_strlit("ArrowDown");
    reveal_strlit("arrowdown");
    assert(lower("ArrowDown"@) =~= "arrowdown"@);
    reveal_strlit("arrowup");
    reveal_strlit("backspace");
    reveal_strlit("del");
    reveal_strlit("delete");
    reveal_strlit("end");
    reveal_strlit("enter");
    reveal_strlit("esc");
    reveal_strlit("escape");
    reveal_strlit("home");
    reveal_strlit("insert");
    reveal_strlit("pagedown");
    reveal_strlit("pageup");
    reveal_strlit("return");
    reveal_strlit("space");
    reveal_strlit("tab");
    reveal_strlit("up");
    assert("arrowdown"@[0] != "backspace"@[0]);
    reveal_strlit("mod");
    reveal_strlit("ctrl");
    reveal_strlit("control");
    reveal_strlit("alt");
    reveal_strlit("option");
    reveal_strlit("opt");
    reveal_strlit("shift");
    reveal_strlit("meta");
    reveal_strlit("cmd");
    reveal_strlit("command");
    reveal_strlit("ArrowDown");
    reveal_strlit("arrowdown");
    assert(lower("ArrowDown"@) =~= "arrowdown"@);
}

#[verifier::spinoff_prover]
proof fn lemma_value_plain_arrowleft()
    ensures
        prints_plainly("ArrowLeft"@),
        named_key(lower("ArrowLeft"@)) == Some("ArrowLeft"@),
{
    lemma_named_entries();
    reveal_with_fuel(lookup_from, 24);
    reveal_strlit("ArrowLeft");
    reveal_strlit("arrowleft");
    assert(lower("ArrowLeft"@) =~= "arrowleft"@);
    reveal_strlit("arrowdown");
    reveal_strlit("arrowup");
    reveal_strlit("backspace");
    reveal_strlit("del");
    reveal_strlit("delete");
    reveal_strlit("down");
    reveal_strlit("end");
    reveal_strlit("enter");
    reveal_strlit("esc");
    reveal_strlit("escape");
    reveal_strlit("home");
    reveal_strlit("insert");
    reveal_strlit("pagedown");
    reveal_strlit("pageup");
    reveal_strlit("return");
    reveal_strlit("space");
    reveal_strlit("tab");
    reveal_strlit("up");
    assert("arrowleft"@[0] != "backspace"@[0]);
    assert("arrowleft"@[5] != "arrowdown"@[5]);
    reveal_strlit("mod");
    reveal_strlit("ctrl");
    reveal_strlit("control");
    reveal_strlit("alt");
    reveal_strlit("option");
    reveal_strlit("opt");
    reveal_strlit("shift");
    reveal_strlit("meta");
    reveal_strlit("cmd");
    reveal_strlit("command");
    reveal_strlit("ArrowLeft");
    reveal_strlit("arrowleft");
    assert(lower("ArrowLeft"@) =~= "arrowleft"@);
}

#[verifier::spinoff_prover]
proof fn lemma_value_plain_arrowright()
    ensures
        prints_plainly("ArrowRight"@),
        named_key(lower("ArrowRight"@)) == Some("ArrowRight"@),
{
    lemma_named_entries();
    reveal_with_fuel(lookup_from, 24);
    reveal_strlit("ArrowRight");
    reveal_strlit("arrowright");
    assert(lower("ArrowRight"@) =~= "arrowright"@);
    reveal_strlit("arrowdown");
    reveal_strlit("arrowleft");
    reveal_strlit("arrowup");
    reveal_strlit("backspace");
    reveal_strlit("del");
    reveal_strlit("delete");
    reveal_strlit("down");
    reveal_strlit("end");
    reveal_strlit("enter");
    reveal_strlit("esc");
    reveal_strlit("escape");
    reveal_strlit("home");
    reveal_strlit("insert");
    reveal_strlit("left");
    reveal_strlit("pagedown");
    reveal_strlit("pageup");
    reveal_strlit("return");
    reveal_strlit("space");
    reveal_strlit("tab");
    reveal_strlit("up");
    reveal_strlit("mod");
    reveal_strlit("ctrl");
    reveal_strlit("control");
    reveal_strlit("alt");
    reveal_strlit("option");
    reveal_strlit("opt");
    reveal_strlit("shift");
    reveal_strlit("meta");
    reveal_strlit("cmd");
    reveal_strlit("command");
    reveal_strlit("ArrowRight");
    reveal_strlit("arrowright");
    assert(lower("ArrowRight"@) =~= "arrowright"@);
}

/// Whether a key value prints as text that reads back as the same key: a
/// named key, a function key, or one character whose case goes there and
/// back - which is every character ASCII has, and not every one Unicode has
/// (`ß` prints as `SS`).
pub open spec fn reads_back(key: Seq<char>) -> bool {
    if key.len() == 1 {
        ||| key[0] == ' '
        ||| key[0] == '+'
        ||| {
            let u = upper_of(key[0]);
            &&& u.len() == 1
            &&& !white_space(u[0])
            &&& u[0] != '+'
            &&& lower_of(u[0]) == key
        }
    } else {
        ||| named_key(lower(key)) == Some(key)
        ||| exists|n: nat| 1 <= n <= 24 && key == "F"@ + decimal(n)
    }
}

#[verifier::spinoff_prover]
#[verifier::rlimit(40)]
proof fn lemma_space_and_plus()
    ensures
        named_key("space"@) == Some(" "@),
        named_key("plus"@) == Some("+"@),
        lower("Space"@) == "space"@,
        lower("Plus"@) == "plus"@,
        prints_plainly("Space"@),
        prints_plainly("Plus"@),
{
    lemma_named_entries();
    reveal_strlit("escape");
    reveal_strlit("esc");
    reveal_strlit("enter");
    reveal_strlit("return");
    reveal_strlit("tab");
    reveal_strlit("space");
    reveal_strlit("backspace");
    reveal_strlit("delete");
    reveal_strlit("del");
    reveal_strlit("insert");
    reveal_strlit("home");
    reveal_strlit("end");
    reveal_strlit("pageup");
    reveal_strlit("pagedown");
    reveal_strlit("arrowup");
    reveal_strlit("up");
    reveal_strlit("arrowdown");
    reveal_strlit("down");
    reveal_strlit("arrowleft");
    reveal_strlit("left");
    reveal_strlit("arrowright");
    reveal_strlit("right");
    reveal_strlit("plus");
    reveal_strlit("Space");
    reveal_strlit("Plus");
    reveal_strlit("mod");
    reveal_strlit("ctrl");
    reveal_strlit("control");
    reveal_strlit("alt");
    reveal_strlit("option");
    reveal_strlit("opt");
    reveal_strlit("shift");
    reveal_strlit("meta");
    reveal_strlit("cmd");
    reveal_strlit("command");
    assert(lower("Space"@) =~= "space"@);
    assert(lower("Plus"@) =~= "plus"@);
    assert("space"@[0] != "enter"@[0]);
    assert("space"@[1] != "shift"@[1]);
    assert("plus"@[0] != "home"@[0]);
    assert("plus"@[0] != "down"@[0]);
    assert("plus"@[0] != "left"@[0]);
    assert("plus"@[0] != "ctrl"@[0]);
    assert("plus"@[0] != "meta"@[0]);
    reveal_with_fuel(lookup_from, 24);
}

#[verifier::spinoff_prover]
#[verifier::rlimit(40)]
proof fn lemma_function_key_reads_back(n: nat)
    requires
        1 <= n <= 24,
    ensures
        prints_plainly("F"@ + decimal(n)),
        key_value("F"@ + decimal(n)) == Ok::<Seq<char>, ErrorView>("F"@ + decimal(n)),
{
    let key = "F"@ + decimal(n);
    let d = decimal(n);
    lemma_decimal_reads_back(n);
    reveal_strlit("F");
    reveal_strlit("f");
    reveal_strlit("mod");
    reveal_strlit("ctrl");
    reveal_strlit("control");
    reveal_strlit("alt");
    reveal_strlit("option");
    reveal_strlit("opt");
    reveal_strlit("shift");
    reveal_strlit("meta");
    reveal_strlit("cmd");
    reveal_strlit("command");
    assert(key.len() >= 2);
    assert(lower(key) =~= "f"@ + d) by {
        assert(lower(key) =~= lower("F"@) + lower(d));
        assert(lower("F"@) =~= "f"@);
    }
    assert(is_ascii_digit(d[0]));
    assert(lower(key)[1] == d[0]);
    lemma_named_entries();
    assert forall|j: int| 0 <= j < named_keys().len() implies (#[trigger] named_keys()[j]).0 != lower(key) by {
        lemma_named_aliases(j);
    }
    lemma_lookup_absent(named_keys(), lower(key), 0);
    assert(lower(key).drop_first() =~= d);
    assert(parse_u8(d) == Some(n as u8));
    assert(function_key(parse_u8(lower(key).drop_first())));
    assert(no_plus(key)) by {
        assert forall|i: int| 0 <= i < key.len() implies key[i] != '+' by {
            if i > 0 {
                assert(key[i] == d[i - 1]);
            }
        }
    }
    assert(key.last() == d.last());
    assert(is_ascii_digit(d[d.len() - 1]));
    assert(lower(key)[0] != "mod"@[0]);
    assert(lower(key)[0] != "ctrl"@[0]);
    assert(lower(key)[0] != "control"@[0]);
    assert(lower(key)[0] != "alt"@[0]);
    assert(lower(key)[0] != "option"@[0]);
    assert(lower(key)[0] != "opt"@[0]);
    assert(lower(key)[0] != "shift"@[0]);
    assert(lower(key)[0] != "meta"@[0]);
    assert(lower(key)[0] != "cmd"@[0]);
    assert(lower(key)[0] != "command"@[0]);
}

#[verifier::spinoff_prover]
#[verifier::rlimit(40)]
proof fn lemma_label_reads_back(key: Seq<char>)
    requires
        reads_back(key),
    ensures
        prints_plainly(key_label(key)),
        key_value(key_label(key)) == Ok::<Seq<char>, ErrorView>(key),
{
    reveal_strlit(" ");
    reveal_strlit("+");
    if key.len() == 1 {
        if key[0] == ' ' {
            assert(key =~= seq![' ']);
            assert(key =~= " "@);
            lemma_space_and_plus();
            reveal_strlit("Space");
            assert(key_label(key) == "Space"@);
            assert(prints_plainly(key_label(key)));
            assert(key_value("Space"@) == Ok::<Seq<char>, ErrorView>(key));
        } else if key[0] == '+' {
            assert(key =~= seq!['+']);
            assert(key =~= "+"@);
            lemma_space_and_plus();
            reveal_strlit("Plus");
            assert(key_label(key) == "Plus"@);
            assert(prints_plainly(key_label(key)));
            assert(key_value("Plus"@) == Ok::<Seq<char>, ErrorView>(key));
        } else {
            let u = upper_of(key[0]);
            assert(key != seq![' ']);
            assert(key != seq!['+']);
            assert(key_label(key) == u);
            assert(u =~= seq![u[0]]);
            reveal_strlit("mod");
            reveal_strlit("ctrl");
            reveal_strlit("control");
            reveal_strlit("alt");
            reveal_strlit("option");
            reveal_strlit("opt");
            reveal_strlit("shift");
            reveal_strlit("meta");
            reveal_strlit("cmd");
            reveal_strlit("command");
            assert(lower(u).len() == 1);
            assert(no_plus(u));
            assert(prints_plainly(u));
            assert(key_value(u) == Ok::<Seq<char>, ErrorView>(key));
        }
    } else {
        assert(key != seq![' ']);
        assert(key != seq!['+']);
        assert(key_label(key) == key);
        if named_key(lower(key)) == Some(key) {
            lemma_lookup_found(named_keys(), lower(key), 0);
            lemma_named_entries();
            let j = choose|j: int| 0 <= j < named_keys().len() && #[trigger] named_keys()[j] == (lower(key), key);
            lemma_named_values(j);
            assert(prints_plainly(key));
            assert(key_value(key) == Ok::<Seq<char>, ErrorView>(key));
        } else {
            let n = choose|n: nat| 1 <= n <= 24 && key == "F"@ + decimal(n);
            lemma_function_key_reads_back(n);
        }
    }
}

proof fn lemma_trim_plain(t: Seq<char>)
    requires
        t.len() > 0,
        !white_space(t[0]),
        !white_space(t.last()),
    ensures
        trim_ws(t) == t,
{
}

proof fn lemma_last_plus_before(x: Seq<char>, b: Seq<char>)
    requires
        no_plus(b),
    ensures
        last_plus(x + seq!['+'] + b) == Some(x.len() as int),
    decreases b.len(),
{
    let t = x + seq!['+'] + b;
    if b.len() > 0 {
        assert(t.last() == b.last());
        assert(t.drop_last() =~= x + seq!['+'] + b.drop_last());
        lemma_last_plus_before(x, b.drop_last());
    }
}

proof fn lemma_no_plus_has_none(b: Seq<char>)
    requires
        no_plus(b),
    ensures
        last_plus(b) is None,
    decreases b.len(),
{
    if b.len() > 0 {
        assert(b.drop_last().len() < b.len());
        lemma_no_plus_has_none(b.drop_last());
    }
}

proof fn lemma_aria_starts_plainly(key: Seq<char>, m: Modifiers)
    requires
        prints_plainly(key_label(key)),
    ensures
        aria_text(key, m).len() >= 1,
        !white_space(aria_text(key, m)[0]),
        aria_text(key, m).last() == key_label(key).last(),
{
    reveal_strlit("Control+");
    reveal_strlit("Alt+");
    reveal_strlit("Shift+");
    reveal_strlit("Meta+");
    let a = aria_text(key, m);
    let c = (if m.ctrl {
        "Control+"@
    } else {
        Seq::empty()
    });
    let l = (if m.alt {
        "Alt+"@
    } else {
        Seq::empty()
    });
    let sh = (if m.shift {
        "Shift+"@
    } else {
        Seq::empty()
    });
    let me = (if m.meta {
        "Meta+"@
    } else {
        Seq::empty()
    });
    let label = key_label(key);
    assert(a == c + l + sh + me + label);
    assert(a.last() == label.last());
    if m.ctrl {
        assert(a[0] == c[0]);
    } else if m.alt {
        assert(a[0] == l[0]);
    } else if m.shift {
        assert(a[0] == sh[0]);
    } else if m.meta {
        assert(a[0] == me[0]);
    } else {
        assert(a =~= label);
    }
}

/// A shortcut prints in `aria-keyshortcuts` form as text that parses back to
/// the same shortcut on any platform, whichever platform it was made for:
/// the form names Control and Meta, never `Mod`. This holds of every key that
/// reads back (see [`reads_back`]).
#[verifier::spinoff_prover]
#[verifier::rlimit(80)]
pub proof fn law_a_shortcut_reads_back_from_its_aria_form(key: Seq<char>, m: Modifiers, platform: Platform)
    requires
        reads_back(key),
    ensures
        parsed(aria_text(key, m), platform) == Ok::<(Seq<char>, Modifiers), ErrorView>((key, m)),
{
    let label = key_label(key);
    let labels = modifier_labels(m);
    let t = aria_text(key, m);
    lemma_aria_shape(key, m);
    lemma_label_reads_back(key);
    lemma_aria_starts_plainly(key, m);
    lemma_trim_plain(t);
    lemma_modifier_words();
    assert(t != seq!['+']) by {
        if t == seq!['+'] {
            assert(t.last() == '+');
            assert(label[label.len() - 1] != '+');
        }
    }
    assert(!ends_with(t, seq!['+', '+'])) by {
        if ends_with(t, seq!['+', '+']) {
            assert(t.skip(t.len() - 2)[1] == t.last());
            assert(label[label.len() - 1] != '+');
        }
    }
    if labels.len() == 0 {
        assert(!m.ctrl && !m.alt && !m.shift && !m.meta);
        assert(m == no_modifiers());
        lemma_no_plus_has_none(label);
        assert(split_key(t) == (None::<Seq<char>>, label));
    } else {
        let j = joined(labels, seq!['+']);
        lemma_last_plus_before(j, label);
        assert(t.take(j.len() as int) =~= j);
        assert(t.skip(j.len() as int + 1) =~= label);
        lemma_trim_plain(label);
        assert(split_key(t) == (Some(j), label));
        assert forall|i: int| 0 <= i < labels.len() implies no_plus(#[trigger] labels[i]) by {
            assert(labels[i] == "Control"@ || labels[i] == "Alt"@ || labels[i] == "Shift"@ || labels[i] == "Meta"@);
        }
        lemma_pieces_of_joined(labels);
        lemma_labels_read_back(m, platform);
    }
}

proof fn lemma_ascii_case(c: char)
    requires
        (c as u32) < 128,
        !white_space(c),
        lower_char(c) != '+',
    ensures
        ({
            let lc = lower_char(c);
            let u = upper_char(lc);
            &&& (u as u32) < 128
            &&& !white_space(u)
            &&& u != '+'
            &&& lower_char(u) == lc
        }),
{
    let lc = lower_char(c);
    if 'A' <= c && c <= 'Z' {
        let x: int = (c as u32) + 32;
        assert((x as char) as u32 == x);
        assert('a' <= lc && lc <= 'z');
        let y: int = (lc as u32) - 32;
        assert((y as char) as u32 == y);
        assert(y == c as u32);
    } else if 'a' <= c && c <= 'z' {
        assert(lc == c);
        let y: int = (c as u32) - 32;
        assert((y as char) as u32 == y);
        let u = upper_char(lc);
        assert('A' <= u && u <= 'Z');
        let x: int = (u as u32) + 32;
        assert((x as char) as u32 == x);
    } else {
        assert(lc == c);
        assert(upper_char(lc) == c);
    }
}

/// The key a shortcut's text names: trimmed, never empty once parsed, and
/// ASCII when the text is.
proof fn lemma_key_text(text: Seq<char>)
    requires
        trim_ws(text).len() > 0,
    ensures
        ({
            let key = split_key(trim_ws(text)).1;
            &&& key == seq!['+'] || key.len() == 0 || !white_space(key[0])
            &&& all_ascii(text) ==> all_ascii(key)
        }),
{
    let t = trim_ws(text);
    lemma_trim_ws_plain(text);
    if t == seq!['+'] || ends_with(t, seq!['+', '+']) {
    } else {
        match last_plus(t) {
            Some(p) => {
                lemma_last_plus_in(t);
                let rest = t.skip(p + 1);
                lemma_trim_ws_plain(rest);
                if all_ascii(text) {
                    assert forall|k: int| 0 <= k < rest.len() implies (rest[k] as u32) < 128 by {
                        assert(rest[k] == t[p + 1 + k]);
                    }
                }
            },
            None => {},
        }
    }
}

proof fn lemma_last_plus_in(s: Seq<char>)
    ensures
        last_plus(s) matches Some(p) ==> 0 <= p < s.len(),
    decreases s.len(),
{
    if s.len() > 0 && s.last() != '+' {
        lemma_last_plus_in(s.drop_last());
    }
}

proof fn lemma_single_values(i: int)
    requires
        0 <= i < 23,
        named_keys()[i].1.len() == 1,
    ensures
        named_keys()[i].1 == seq![' '] || named_keys()[i].1 == seq!['+'],
{
    lemma_named_entries();
    reveal_strlit(" ");
    reveal_strlit("+");
    if named_keys()[i].1.len() == 1 && named_keys()[i].1 != " "@ && named_keys()[i].1 != "+"@ {
        lemma_named_values_long(i);
    }
}

proof fn lemma_named_values_long(i: int)
    requires
        0 <= i < 23,
        named_keys()[i].1 != " "@,
        named_keys()[i].1 != "+"@,
    ensures
        named_keys()[i].1.len() >= 3,
{
    lemma_named_entries();
    reveal_strlit("Escape");
    reveal_strlit("Enter");
    reveal_strlit("Tab");
    reveal_strlit("Backspace");
    reveal_strlit("Delete");
    reveal_strlit("Insert");
    reveal_strlit("Home");
    reveal_strlit("End");
    reveal_strlit("PageUp");
    reveal_strlit("PageDown");
    reveal_strlit("ArrowUp");
    reveal_strlit("ArrowDown");
    reveal_strlit("ArrowLeft");
    reveal_strlit("ArrowRight");
}

/// Every key a shortcut written in ASCII names reads back: a letter, a digit
/// or a symbol, a named key, or a function key.
#[verifier::spinoff_prover]
#[verifier::rlimit(40)]
proof fn lemma_ascii_keys_read_back(text: Seq<char>, platform: Platform)
    requires
        all_ascii(text),
        parsed(text, platform) is Ok,
    ensures
        reads_back(parsed(text, platform)->Ok_0.0),
{
    let t = trim_ws(text);
    let key = split_key(t).1;
    lemma_key_text(text);
    let k = parsed(text, platform)->Ok_0.0;
    assert(key_value(key) == Ok::<Seq<char>, ErrorView>(k));
    if key.len() == 1 {
        let c = key[0];
        assert((c as u32) < 128);
        assert(k == seq![lower_char(c)]);
        if lower_char(c) != '+' {
            if c == '+' {
                assert(false);
            }
            assert(!white_space(c));
            lemma_ascii_case(c);
            let u = upper_char(lower_char(c));
            assert(upper_of(k[0]) == seq![u]);
            assert(lower_of(u) == seq![lower_char(u)]);
            assert(reads_back(k));
        } else {
            assert(k[0] == '+');
            assert(reads_back(k));
        }
    } else if named_key(lower(key)) is Some {
        lemma_lookup_found(named_keys(), lower(key), 0);
        lemma_named_entries();
        let j = choose|j: int| 0 <= j < named_keys().len() && #[trigger] named_keys()[j] == (lower(key), k);
        if k.len() == 1 {
            lemma_single_values(j);
            assert(reads_back(k));
        } else {
            lemma_named_values(j);
            assert(reads_back(k));
        }
    } else {
        let n = parse_u8(lower(key).drop_first())->0;
        assert(1 <= n <= 24 && k == "F"@ + decimal(n as nat));
        lemma_decimal_reads_back(n as nat);
        reveal_strlit("F");
        assert(k.len() != 1);
        assert(reads_back(k));
    }
}

/// Every shortcut read from ASCII text prints in `aria-keyshortcuts` form as
/// text that parses back to the same shortcut on any platform.
pub proof fn law_a_shortcut_written_in_ascii_reads_back(text: Seq<char>, made_for: Platform, read_on: Platform)
    requires
        all_ascii(text),
        parsed(text, made_for) is Ok,
    ensures
        parsed(
            aria_text(parsed(text, made_for)->Ok_0.0, parsed(text, made_for)->Ok_0.1),
            read_on,
        ) == parsed(text, made_for),
{
    lemma_ascii_keys_read_back(text, made_for);
    law_a_shortcut_reads_back_from_its_aria_form(parsed(text, made_for)->Ok_0.0, parsed(text, made_for)->Ok_0.1, read_on);
}

} // verus!
