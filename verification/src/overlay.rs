//! Layers a scope owns: menus, tooltips and dialogs, drawn above everything
//! else in the scope, its GPU regions included.
//!
//! A layer is a component, so the application decides when one exists. The
//! stack decides the rest: what it covers, which layer answers Escape, and
//! where Tab goes inside it. A modal layer makes the rest of its own scope
//! inert rather than merely painting over it, so a control underneath cannot
//! be clicked, focused or read out while it is open.

use vstd::prelude::*;
use crate::strings::{all_digits, chars_of, digits_value, is_ascii_digit, lemma_digits_value_grows, str_eq};
use crate::shortcut::Modifiers;
use crate::unicode::{trim_bounds, trim_ws};

verus! {

/// Identifies one open layer within its scope. Ids are never reused, so an id
/// kept after its layer closed keeps failing lookups.
#[derive(Clone, Copy, Debug, PartialEq, Eq, PartialOrd, Ord, Hash, Structural)]
pub struct LayerId(pub u64);

/// Where the keyboard is, among a modal layer's tab stops.
#[derive(Clone, Copy, Debug, PartialEq, Eq, Structural)]
pub enum TabFocus {
    /// On the stop at this index.
    On(usize),
    /// On something inside the layer that is not a stop, with this many
    /// stops before it in the document.
    After(usize),
}

/// Where Tab (or Shift+Tab) has to be sent so that it stays inside a modal
/// layer of `stops` tab stops, or `None` where the browser's own move already
/// does: only the two ends wrap.
pub open spec fn wrapped(stops: usize, focus: TabFocus, backwards: bool) -> Option<usize> {
    if stops == 0 {
        None
    } else {
        let at_end = match focus {
            TabFocus::On(index) => if backwards {
                index == 0
            } else {
                index == stops - 1
            },
            TabFocus::After(before) => if backwards {
                before == 0
            } else {
                before == stops
            },
        };
        if !at_end {
            None
        } else if backwards {
            Some((stops - 1) as usize)
        } else {
            Some(0)
        }
    }
}

/// The stop Tab (or Shift+Tab, `backwards`) has to be sent to so that it
/// stays inside a modal layer of `stops` tab stops, or `None` where the
/// browser's own move already does.
///
/// Only the two ends wrap. Everything between is the browser's ordinary tab
/// order, which is what a person expects inside a dialog as much as outside
/// one.
pub fn wrap_tab(stops: usize, focus: TabFocus, backwards: bool) -> (r: Option<usize>)
    ensures
        r == wrapped(stops, focus, backwards),
{
    if stops == 0 {
        return None;
    }
    let last = stops - 1;
    let at_end = match focus {
        TabFocus::On(index) => if backwards {
            index == 0
        } else {
            index == last
        },
        TabFocus::After(before) => if backwards {
            before == 0
        } else {
            before == stops
        },
    };
    if !at_end {
        None
    } else if backwards {
        Some(last)
    } else {
        Some(0)
    }
}

/// The keyboard never leaves a modal layer by Tab: every wrap lands on one of
/// its stops, and a focus that is on a stop and not at an end is left to the
/// browser.
pub proof fn law_tab_stays_inside(stops: usize, focus: TabFocus, backwards: bool)
    ensures
        wrapped(stops, focus, backwards) matches Some(i) ==> i < stops,
        (focus matches TabFocus::On(i) && 0 < i < stops - 1) ==> wrapped(stops, focus, backwards) is None,
{
}

// ------------------------------------------------------------- tab order

/// The whole number `s` spells as Rust reads an `i32`: an optional sign and
/// at least one ASCII digit, within the range of an `i32`.
pub open spec fn parsed_i32(s: Seq<char>) -> Option<int> {
    let signed = s.len() > 0 && (s[0] == '-' || s[0] == '+');
    let body = if signed {
        s.drop_first()
    } else {
        s
    };
    let value = if signed && s[0] == '-' {
        -(digits_value(body) as int)
    } else {
        digits_value(body) as int
    };
    if body.len() == 0 || !all_digits(body) || value < i32::MIN || value > i32::MAX {
        None
    } else {
        Some(value)
    }
}

/// What a `tabindex` attribute puts an element at: the number its text
/// spells once the white space round it is gone, and zero when there is no
/// attribute or it is not such a number.
pub open spec fn tab_index_of(attr: Option<Seq<char>>) -> int {
    match attr {
        None => 0,
        Some(a) => match parsed_i32(trim_ws(a)) {
            Some(v) => v,
            None => 0,
        },
    }
}

/// The number `s[from..to]` spells, if it is one (see [`parsed_i32`]).
fn decimal_of(s: &[char], from: usize, to: usize) -> (r: Option<i32>)
    requires
        from <= to <= s@.len(),
    ensures
        match r {
            Some(v) => parsed_i32(s@.subrange(from as int, to as int)) == Some(v as int),
            None => parsed_i32(s@.subrange(from as int, to as int)) is None,
        },
{
    let ghost t = s@.subrange(from as int, to as int);
    let mut i = from;
    let mut negative = false;
    if i < to && (s[i] == '-' || s[i] == '+') {
        negative = s[i] == '-';
        i = i + 1;
    }
    let start = i;
    let ghost body = s@.subrange(start as int, to as int);
    assert(body =~= (if t.len() > 0 && (t[0] == '-' || t[0] == '+') {
        t.drop_first()
    } else {
        t
    }));
    if start == to {
        return None;
    }
    let mut v: i64 = 0;
    assert(s@.subrange(start as int, start as int) =~= Seq::<char>::empty());
    while i < to
        invariant
            from <= start <= i <= to <= s@.len(),
            body == s@.subrange(start as int, to as int),
            t == s@.subrange(from as int, to as int),
            body == (if t.len() > 0 && (t[0] == '-' || t[0] == '+') {
                t.drop_first()
            } else {
                t
            }),
            all_digits(s@.subrange(start as int, i as int)),
            v == digits_value(s@.subrange(start as int, i as int)),
            0 <= v <= 2147483648,
        decreases to - i,
    {
        let c = s[i];
        if !('0' <= c && c <= '9') {
            assert(!is_ascii_digit(body[i - start]));
            return None;
        }
        let d: i64 = (c as u32 - 48) as i64;
        let ghost before = s@.subrange(start as int, i as int);
        v = v * 10 + d;
        i = i + 1;
        assert(s@.subrange(start as int, i as int).drop_last() =~= before);
        assert(all_digits(s@.subrange(start as int, i as int)));
        if v > 2147483648 {
            proof {
                if all_digits(body) {
                    lemma_digits_value_grows(body, i - start);
                    assert(body.take(i - start) =~= s@.subrange(start as int, i as int));
                }
            }
            return None;
        }
    }
    assert(s@.subrange(start as int, i as int) =~= body);
    let value: i64 = if negative {
        -v
    } else {
        v
    };
    if value < -2147483648 || value > 2147483647 {
        None
    } else {
        Some(value as i32)
    }
}

/// Where a `tabindex` attribute puts an element in the tab order (see
/// [`tab_index_of`]).
pub fn tab_index(attr: Option<&str>) -> (r: i32)
    ensures
        r == tab_index_of(
            match attr {
                Some(a) => Some(a@),
                None => None,
            },
        ),
{
    let a = match attr {
        None => return 0,
        Some(a) => a,
    };
    let cs = chars_of(a);
    let (from, to) = trim_bounds(cs.as_slice(), 0, cs.len());
    proof {
        assert(cs@.subrange(0, cs@.len() as int) =~= a@);
    }
    match decimal_of(cs.as_slice(), from, to) {
        Some(v) => v,
        None => 0,
    }
}

/// One element Tab could stop at inside a layer, as the page reports it.
#[derive(Clone, Debug, PartialEq, Eq)]
pub struct Candidate {
    /// Its place in the tab order, as [`tab_index`] reads its attribute.
    pub index: i32,
    /// On screen, and neither disabled, inert nor hidden.
    pub reachable: bool,
    /// For a radio button: its group's name and whether it is checked.
    pub radio: Option<(String, bool)>,
}

/// Whether Tab may stop at the element at all: not taken out of the order
/// with a negative index, and reachable.
pub open spec fn eligible(c: Candidate) -> bool {
    c.index >= 0 && c.reachable
}

/// The radio group an element belongs to, and whether it is the checked one.
/// A radio button without a name is in no group.
pub open spec fn group_of(c: Candidate) -> Option<(Seq<char>, bool)> {
    match c.radio {
        Some((name, checked)) => if name@.len() > 0 {
            Some((name@, checked))
        } else {
            None
        },
        None => None,
    }
}

/// Whether an eligible member of group `name` is checked.
pub open spec fn group_checked(cs: Seq<Candidate>, name: Seq<char>) -> bool {
    exists|j: int| 0 <= j < cs.len() && eligible(cs[j]) && #[trigger] group_of(cs[j]) == Some((name, true))
}

/// Whether no eligible element before `i` is in group `name`.
pub open spec fn first_in_group(cs: Seq<Candidate>, i: int, name: Seq<char>) -> bool {
    forall|j: int| 0 <= j < i && eligible(cs[j]) ==> !(#[trigger] group_of(cs[j]) matches Some((n, _)) && n == name)
}

/// Whether Tab stops at the element at `i`: one that is eligible, and for a
/// radio group one member only, the checked one if there is one and the
/// first otherwise.
pub open spec fn stops_at(cs: Seq<Candidate>, i: int) -> bool {
    &&& eligible(cs[i])
    &&& match group_of(cs[i]) {
        None => true,
        Some((name, checked)) => if group_checked(cs, name) {
            checked
        } else {
            first_in_group(cs, i, name)
        },
    }
}

/// The key Tab orders by: a positive index, in its own order, before
/// everything at zero.
pub open spec fn order_key(c: Candidate) -> int {
    if c.index > 0 {
        c.index as int
    } else {
        i32::MAX as int
    }
}

/// Whether the element at `a` comes before the one at `b` in the tab order:
/// by key, and in document order among equal keys.
pub open spec fn comes_before(cs: Seq<Candidate>, a: int, b: int) -> bool {
    order_key(cs[a]) < order_key(cs[b]) || (order_key(cs[a]) == order_key(cs[b]) && a < b)
}

fn group_exec(c: &Candidate) -> (r: Option<(&str, bool)>)
    ensures
        match r {
            Some((n, checked)) => group_of(*c) == Some((n@, checked)),
            None => group_of(*c) is None,
        },
{
    match &c.radio {
        Some((name, checked)) => if name.as_str().unicode_len() > 0 {
            Some((name.as_str(), *checked))
        } else {
            None
        },
        None => None,
    }
}

fn key_of(c: &Candidate) -> (r: i64)
    ensures
        r == order_key(*c),
{
    if c.index > 0 {
        c.index as i64
    } else {
        2147483647
    }
}

/// Whether Tab stops at `cs[i]` (see [`stops_at`]).
fn stops_at_exec(cs: &[Candidate], i: usize) -> (r: bool)
    requires
        i < cs@.len(),
    ensures
        r == stops_at(cs@, i as int),
{
    let c = &cs[i];
    if !(c.index >= 0 && c.reachable) {
        return false;
    }
    let (name, checked) = match group_exec(c) {
        None => return true,
        Some(g) => g,
    };
    let mut j: usize = 0;
    while j < cs.len()
        invariant
            j <= cs@.len(),
            i < cs@.len(),
            eligible(cs@[i as int]),
            group_of(cs@[i as int]) == Some((name@, checked)),
            forall|k: int| 0 <= k < j ==> !(eligible(cs@[k]) && #[trigger] group_of(cs@[k]) == Some((name@, true))),
        decreases cs@.len() - j,
    {
        let d = &cs[j];
        if d.index >= 0 && d.reachable {
            match group_exec(d) {
                Some((n, true)) => if str_eq(n, name) {
                    assert(group_of(cs@[j as int]) == Some((name@, true)));
                    return checked;
                },
                _ => {},
            }
        }
        j = j + 1;
    }
    let mut k: usize = 0;
    while k < i
        invariant
            k <= i < cs@.len(),
            eligible(cs@[i as int]),
            group_of(cs@[i as int]) == Some((name@, checked)),
            !group_checked(cs@, name@),
            forall|m: int| 0 <= m < k && eligible(cs@[m]) ==> !(#[trigger] group_of(cs@[m]) matches Some((n, _)) && n == name@),
        decreases i - k,
    {
        let d = &cs[k];
        if d.index >= 0 && d.reachable {
            match group_exec(d) {
                Some((n, _)) => if str_eq(n, name) {
                    assert(eligible(cs@[k as int]) && (group_of(cs@[k as int]) matches Some((n2, _)) && n2 == name@));
                    return false;
                },
                None => {},
            }
        }
        k = k + 1;
    }
    true
}

/// The elements Tab stops at inside a layer, as positions in `cs`, in the
/// order it stops at them: nothing ineligible, one radio button per group,
/// positive indices first in their own order, then document order.
pub fn tab_order(cs: &[Candidate]) -> (r: Vec<usize>)
    ensures
        forall|k: int| 0 <= k < r@.len() ==> r@[k] < cs@.len() && stops_at(cs@, #[trigger] r@[k] as int),
        forall|i: int| 0 <= i < cs@.len() && stops_at(cs@, i) ==> r@.contains(i as usize),
        forall|a: int, b: int| 0 <= a < b < r@.len() ==> comes_before(cs@, #[trigger] r@[a] as int, #[trigger] r@[b] as int),
{
    let mut out: Vec<usize> = Vec::new();
    let mut i: usize = 0;
    while i < cs.len()
        invariant
            i <= cs@.len(),
            forall|k: int| 0 <= k < out@.len() ==> out@[k] < i && stops_at(cs@, #[trigger] out@[k] as int),
            forall|j: int| 0 <= j < i && stops_at(cs@, j) ==> out@.contains(j as usize),
            forall|a: int, b: int| 0 <= a < b < out@.len() ==> comes_before(cs@, #[trigger] out@[a] as int, #[trigger] out@[b] as int),
        decreases cs@.len() - i,
    {
        if stops_at_exec(cs, i) {
            let key = key_of(&cs[i]);
            let mut p: usize = 0;
            while p < out.len() && key_of(&cs[out[p]]) <= key
                invariant
                    p <= out@.len(),
                    i < cs@.len(),
                    key == order_key(cs@[i as int]),
                    forall|k: int| 0 <= k < out@.len() ==> out@[k] < i && stops_at(cs@, #[trigger] out@[k] as int),
                    forall|k: int| 0 <= k < p ==> order_key(cs@[#[trigger] out@[k] as int]) <= key,
                decreases out@.len() - p,
            {
                p = p + 1;
            }
            let ghost before = out@;
            out.insert(p, i);
            proof {
                assert forall|a: int, b: int| 0 <= a < b < out@.len() implies comes_before(
                    cs@,
                    #[trigger] out@[a] as int,
                    #[trigger] out@[b] as int,
                ) by {
                    if b < p {
                        assert(out@[a] == before[a] && out@[b] == before[b]);
                    } else if b == p {
                        assert(out@[a] == before[a]);
                    } else if a == p {
                        assert(out@[b] == before[b - 1]);
                        assert(order_key(cs@[before[p as int] as int]) > key);
                        if b - 1 > p {
                            assert(comes_before(cs@, before[p as int] as int, before[b - 1] as int));
                        }
                    } else if a < p {
                        assert(out@[a] == before[a] && out@[b] == before[b - 1]);
                    } else {
                        assert(out@[a] == before[a - 1] && out@[b] == before[b - 1]);
                    }
                }
                assert forall|j: int| 0 <= j < i + 1 && stops_at(cs@, j) implies out@.contains(j as usize) by {
                    if j == i {
                        assert(out@[p as int] == i);
                    } else {
                        let k = choose|k: int| 0 <= k < before.len() && before[k] == j as usize;
                        if k < p {
                            assert(out@[k] == before[k]);
                        } else {
                            assert(out@[k + 1] == before[k]);
                        }
                    }
                }
                assert forall|k: int| 0 <= k < out@.len() implies out@[k] < i + 1 && stops_at(cs@, #[trigger] out@[k] as int) by {
                    if k < p {
                        assert(out@[k] == before[k]);
                    } else if k > p {
                        assert(out@[k] == before[k - 1]);
                    }
                }
            }
        }
        i = i + 1;
    }
    out
}

/// Where one tab stop of a layer is, relative to what has the keyboard.
#[derive(Clone, Copy, Debug, PartialEq, Eq, Structural)]
pub struct Place {
    /// The stop is what has the keyboard.
    pub focused: bool,
    /// The stop comes before what has the keyboard in the document.
    pub before_focus: bool,
}

/// A key press as a modal layer sees it.
#[derive(Clone, Copy, Debug, PartialEq, Eq)]
pub struct TabPress<'a> {
    pub key: &'a str,
    /// Something earlier already cancelled the key's default action.
    pub prevented: bool,
    /// An input method is composing.
    pub composing: bool,
    pub modifiers: Modifiers,
}

/// The first stop that has the keyboard, if one does.
pub open spec fn first_focused(s: Seq<Place>) -> Option<int>
    decreases s.len(),
{
    if s.len() == 0 {
        None
    } else {
        match first_focused(s.drop_last()) {
            Some(k) => Some(k),
            None => if s.last().focused {
                Some(s.len() - 1)
            } else {
                None
            },
        }
    }
}

/// How many stops come before what has the keyboard.
pub open spec fn count_before(s: Seq<Place>) -> nat
    decreases s.len(),
{
    if s.len() == 0 {
        0
    } else {
        count_before(s.drop_last()) + if s.last().before_focus {
            1nat
        } else {
            0nat
        }
    }
}

/// Where the keyboard is among the stops.
pub open spec fn focus_among(s: Seq<Place>) -> TabFocus {
    match first_focused(s) {
        Some(k) => TabFocus::On(k as usize),
        None => TabFocus::After(count_before(s) as usize),
    }
}

/// Where a modal layer sends a key press so that Tab stays inside it, or
/// `None` when it leaves the press alone: anything but a plain Tab or
/// Shift+Tab, one already handled, or one an input method is composing.
pub open spec fn tab_redirect(press: TabPress, stops: Seq<Place>) -> Option<usize> {
    if press.key@ != "Tab"@ || press.prevented || press.composing || press.modifiers.ctrl
        || press.modifiers.alt || press.modifiers.meta {
        None
    } else {
        wrapped(stops.len() as usize, focus_among(stops), press.modifiers.shift)
    }
}

proof fn lemma_first_focused_bound(s: Seq<Place>)
    ensures
        first_focused(s) matches Some(k) ==> 0 <= k < s.len() && s[k].focused,
        first_focused(s) is None ==> forall|k: int| 0 <= k < s.len() ==> !(#[trigger] s[k]).focused,
        count_before(s) <= s.len(),
    decreases s.len(),
{
    if s.len() > 0 {
        lemma_first_focused_bound(s.drop_last());
        assert forall|k: int| 0 <= k < s.len() - 1 implies s.drop_last()[k] == #[trigger] s[k] by {}
    }
}

/// Keeps Tab inside a modal layer whose stops are `stops`, in tab order:
/// the stop the press has to be sent to, or `None` to leave it to the
/// browser (see [`tab_redirect`]).
pub fn keep_tab_inside(press: &TabPress, stops: &[Place]) -> (r: Option<usize>)
    ensures
        r == tab_redirect(*press, stops@),
{
    if !str_eq(press.key, "Tab") || press.prevented || press.composing || press.modifiers.ctrl
        || press.modifiers.alt || press.modifiers.meta {
        return None;
    }
    let mut i: usize = 0;
    let mut before: usize = 0;
    let mut found: Option<usize> = None;
    while i < stops.len()
        invariant
            i <= stops@.len(),
            before == count_before(stops@.subrange(0, i as int)),
            found == match first_focused(stops@.subrange(0, i as int)) {
                Some(k) => Some(k as usize),
                None => None::<usize>,
            },
        decreases stops@.len() - i,
    {
        let ghost prefix = stops@.subrange(0, i as int);
        proof {
            lemma_first_focused_bound(prefix);
            assert(stops@.subrange(0, i + 1).drop_last() =~= prefix);
        }
        if found.is_none() && stops[i].focused {
            found = Some(i);
        }
        if stops[i].before_focus {
            before = before + 1;
        }
        i = i + 1;
    }
    proof {
        assert(stops@.subrange(0, i as int) =~= stops@);
    }
    let focus = match found {
        Some(k) => TabFocus::On(k),
        None => TabFocus::After(before),
    };
    wrap_tab(stops.len(), focus, press.modifiers.shift)
}

/// What has the keyboard, as the document reports it.
#[derive(Clone, Copy, Debug, PartialEq, Eq, Structural)]
pub enum Focused {
    /// Nothing does.
    Nowhere,
    /// The page's body, which is where the keyboard is when nothing in
    /// particular has it.
    Body,
    /// Some element.
    Element,
}

/// Whether the keyboard is inside the topmost layer, or nowhere in
/// particular. `inside_layer` says whether the focused element is inside the
/// layer, and is `None` when there is no layer.
pub fn holds_focus(focused: Focused, inside_layer: Option<bool>) -> (r: bool)
    ensures
        r == match focused {
            Focused::Element => inside_layer == Some(true),
            _ => true,
        },
{
    match focused {
        Focused::Element => match inside_layer {
            Some(inside) => inside,
            None => false,
        },
        _ => true,
    }
}

/// Where the keyboard goes when a layer closes.
#[derive(Clone, Copy, Debug, PartialEq, Eq, Structural)]
pub enum FocusReturn {
    /// Nowhere: the user has already moved on, and taking focus would be
    /// theft.
    Leave,
    /// Back to what had it when the layer opened.
    Trigger,
    /// To the scope's container, because that is gone.
    Container,
}

/// Where the keyboard goes when a layer closes: only a layer that still
/// holds it hands it back, to what had it when the layer opened if that is
/// still in the document (`trigger`, `None` when nothing had it), and to the
/// scope's container otherwise.
pub fn focus_after_close(focused: Focused, inside_layer: Option<bool>, trigger: Option<bool>) -> (r: FocusReturn)
    ensures
        r == (if !(match focused {
            Focused::Element => inside_layer == Some(true),
            _ => true,
        }) {
            FocusReturn::Leave
        } else if trigger == Some(true) {
            FocusReturn::Trigger
        } else {
            FocusReturn::Container
        }),
{
    if !holds_focus(focused, inside_layer) {
        FocusReturn::Leave
    } else {
        match trigger {
            Some(true) => FocusReturn::Trigger,
            _ => FocusReturn::Container,
        }
    }
}

/// What a scope-level key means while layers or an edit are open.
#[derive(Clone, Copy, Debug, PartialEq, Eq, Structural)]
pub enum Routed {
    /// Nothing above the application wanted it.
    Ignored,
    /// Part of what is being composed: it commits nothing and closes nothing.
    Composing,
    /// Escape ends the native editing session.
    CancelEdit,
    /// Escape closes the topmost layer.
    CloseTop,
}

/// The command order: composition and native editing first, then the top
/// layer, then whatever the application does with the key. `editing` says
/// whether a native edit is open and, if so, whether it is composing.
pub open spec fn routed(key: Seq<char>, editing: Option<bool>, layers: nat) -> Routed {
    let escape = key == "Escape"@;
    if !escape && key != "Enter"@ {
        Routed::Ignored
    } else {
        match editing {
            Some(composing) => if composing {
                Routed::Composing
            } else if escape {
                Routed::CancelEdit
            } else {
                Routed::Ignored
            },
            None => if escape && layers > 0 {
                Routed::CloseTop
            } else {
                Routed::Ignored
            },
        }
    }
}

/// The open layers of a scope, oldest first, and the id the next one gets.
#[derive(Clone, Debug)]
pub struct Layers {
    layers: Vec<(u64, bool)>,
    next: u64,
}

/// The layers as the contracts see them: id and whether it is modal, oldest
/// first, and the id the next one gets.
pub struct LayersView {
    pub layers: Seq<(u64, bool)>,
    pub next: u64,
}

impl View for Layers {
    type V = LayersView;

    closed spec fn view(&self) -> LayersView {
        LayersView { layers: self.layers@, next: self.next }
    }
}

/// Ids rise from the oldest layer to the newest, and all are below the next.
pub open spec fn ids_rising(v: LayersView) -> bool {
    &&& forall|i: int, j: int| 0 <= i < j < v.layers.len() ==> v.layers[i].0 < v.layers[j].0
    &&& forall|i: int| 0 <= i < v.layers.len() ==> v.layers[i].0 < v.next
}

/// `layers` without the one whose id is `id`.
pub open spec fn without(layers: Seq<(u64, bool)>, id: u64) -> Seq<(u64, bool)>
    decreases layers.len(),
{
    if layers.len() == 0 {
        Seq::empty()
    } else if layers.last().0 != id {
        without(layers.drop_last(), id).push(layers.last())
    } else {
        without(layers.drop_last(), id)
    }
}

/// Whether the layer at `i` is covered by a modal layer opened after it.
pub open spec fn covered(layers: Seq<(u64, bool)>, i: int) -> bool {
    exists|j: int| i < j < layers.len() && layers[j].1
}

/// Whether any open layer is modal.
pub open spec fn any_modal(layers: Seq<(u64, bool)>) -> bool {
    exists|j: int| 0 <= j < layers.len() && layers[j].1
}

impl Layers {
    pub fn new() -> (r: Layers)
        ensures
            r@.layers == Seq::<(u64, bool)>::empty(),
            r@.next == 1,
            ids_rising(r@),
    {
        Layers { layers: Vec::new(), next: 1 }
    }

    /// Opens a layer on top of the others and names it.
    pub fn push(&mut self, modal: bool) -> (r: LayerId)
        requires
            old(self)@.next < u64::MAX,
        ensures
            r.0 == old(self)@.next,
            final(self)@.layers == old(self)@.layers.push((r.0, modal)),
            final(self)@.next == old(self)@.next + 1,
            ids_rising(old(self)@) ==> ids_rising(final(self)@),
            ids_rising(old(self)@) ==> forall|i: int| 0 <= i < old(self)@.layers.len() ==> old(self)@.layers[i].0 != r.0,
    {
        let id = self.next;
        self.next = self.next + 1;
        self.layers.push((id, modal));
        LayerId(id)
    }

    /// Closes the layer named `id`, wherever it is in the stack.
    pub fn remove(&mut self, id: LayerId)
        requires
            ids_rising(old(self)@),
        ensures
            final(self)@.layers == without(old(self)@.layers, id.0),
            final(self)@.next == old(self)@.next,
            ids_rising(final(self)@),
    {
        let ghost before = self.layers@;
        let mut kept: Vec<(u64, bool)> = Vec::new();
        let mut i: usize = 0;
        while i < self.layers.len()
            invariant
                i <= before.len(),
                self.layers@ == before,
                ids_rising(old(self)@),
                old(self)@.layers == before,
                self.next == old(self)@.next,
                kept@ == without(before.take(i as int), id.0),
                forall|a: int, b: int| 0 <= a < b < kept@.len() ==> kept@[a].0 < kept@[b].0,
                forall|a: int| 0 <= a < kept@.len() ==> kept@[a].0 < self.next,
                i < before.len() ==> forall|a: int| 0 <= a < kept@.len() ==> kept@[a].0 < before[i as int].0,
            decreases before.len() - i,
        {
            let layer = self.layers[i];
            proof {
                assert(before.take(i + 1).drop_last() =~= before.take(i as int));
            }
            if layer.0 != id.0 {
                kept.push(layer);
            }
            i = i + 1;
            proof {
                if i < before.len() {
                    assert(before[i - 1].0 < before[i as int].0);
                }
            }
        }
        assert(before.take(i as int) =~= before);
        self.layers = kept;
    }

    /// How many layers are open.
    pub fn depth(&self) -> (r: usize)
        ensures
            r == self@.layers.len(),
    {
        self.layers.len()
    }

    /// The topmost layer, the one Escape closes.
    pub fn top(&self) -> (r: Option<LayerId>)
        ensures
            r == (if self@.layers.len() == 0 {
                None
            } else {
                Some(LayerId(self@.layers.last().0))
            }),
    {
        if self.layers.len() == 0 {
            None
        } else {
            Some(LayerId(self.layers[self.layers.len() - 1].0))
        }
    }

    /// Whether the scope's own content is inert: it is while any modal layer
    /// is open.
    pub fn content_inert(&self) -> (r: bool)
        ensures
            r == any_modal(self@.layers),
    {
        let mut i: usize = 0;
        while i < self.layers.len()
            invariant
                i <= self@.layers.len(),
                forall|j: int| 0 <= j < i ==> !self@.layers[j].1,
            decreases self@.layers.len() - i,
        {
            if self.layers[i].1 {
                return true;
            }
            i = i + 1;
        }
        false
    }

    /// Which open layers are inert, oldest first: everything below the
    /// topmost modal layer, and nothing from it up.
    pub fn inert_layers(&self) -> (r: Vec<bool>)
        ensures
            r@.len() == self@.layers.len(),
            forall|i: int| 0 <= i < r@.len() ==> r@[i] == covered(self@.layers, i),
    {
        let n = self.layers.len();
        let mut out: Vec<bool> = Vec::new();
        // Walk from the top down, remembering whether a modal layer has been
        // passed.
        let mut seen_modal = false;
        let mut k: usize = n;
        let ghost layers = self@.layers;
        let mut rev: Vec<bool> = Vec::new();
        while k > 0
            invariant
                k <= n == layers.len(),
                layers == self@.layers,
                rev@.len() == n - k,
                seen_modal == (exists|j: int| k <= j < n && layers[j].1),
                forall|t: int| 0 <= t < rev@.len() ==> rev@[t] == covered(layers, n - 1 - t),
            decreases k,
        {
            k = k - 1;
            proof {
                assert(covered(layers, k as int) == (exists|j: int| k < j < n && layers[j].1));
            }
            rev.push(seen_modal);
            if self.layers[k].1 {
                seen_modal = true;
            }
            proof {
                if !self@.layers[k as int].1 {
                    assert forall|j: int| k <= j < n && layers[j].1 implies (k < j) by {}
                }
            }
        }
        let mut i: usize = 0;
        while i < n
            invariant
                i <= n == layers.len(),
                rev@.len() == n,
                out@.len() == i,
                forall|t: int| 0 <= t < n ==> rev@[t] == covered(layers, n - 1 - t),
                forall|t: int| 0 <= t < i ==> out@[t] == covered(layers, t),
            decreases n - i,
        {
            out.push(rev[n - 1 - i]);
            i = i + 1;
        }
        out
    }

    /// What a scope-level Escape or Enter does, given the native edit that is
    /// open, if any, and whether it is composing.
    pub fn route(&self, key: &str, editing: Option<bool>) -> (r: Routed)
        ensures
            r == routed(key@, editing, self@.layers.len()),
    {
        let escape = str_eq(key, "Escape");
        if !escape && !str_eq(key, "Enter") {
            return Routed::Ignored;
        }
        match editing {
            Some(composing) => {
                if composing {
                    Routed::Composing
                } else if escape {
                    Routed::CancelEdit
                } else {
                    Routed::Ignored
                }
            },
            None => {
                if escape && self.layers.len() > 0 {
                    Routed::CloseTop
                } else {
                    Routed::Ignored
                }
            },
        }
    }
}

/// Everything below the topmost modal layer is inert, and nothing from it
/// up: the layer a person is working in can always be reached.
pub proof fn law_the_topmost_modal_layer_is_never_covered(layers: Seq<(u64, bool)>, top: int)
    requires
        0 <= top < layers.len(),
        layers[top].1,
        forall|j: int| top < j < layers.len() ==> !layers[j].1,
    ensures
        forall|i: int| 0 <= i < top ==> covered(layers, i),
        forall|i: int| top <= i < layers.len() ==> !covered(layers, i),
        any_modal(layers),
{
}

/// Layer ids are never reused: every open layer's id is below the id the
/// next layer gets, which [`Layers::push`] hands out and [`Layers::remove`]
/// leaves where it was.
pub proof fn law_layer_ids_are_never_reused(v: LayersView, i: int)
    requires
        ids_rising(v),
        0 <= i < v.layers.len(),
    ensures
        v.layers[i].0 < v.next,
        v.layers[i].0 != v.next,
{
}

} // verus!
