//! The state behind the controls a GPU region draws.
//!
//! None of these widgets holds the value it shows. A click is a request the
//! application answers by handing back a new projection, exactly as the DOM
//! half works, so one value cannot mean two things on one screen. A disabled
//! or read-only control makes no request at all.
//!
//! The renderer draws them and reports pointer hits; what lives here is what
//! each control keeps between frames, whether a change of state owes the
//! region a redraw, and which request a hit turns into.

use vstd::prelude::*;
use crate::strings::str_eq;

verus! {

/// A button a region draws, in the scope's own colours.
#[derive(Clone, Debug)]
pub struct RustifyButton {
    pub label: String,
    pub disabled: bool,
    /// Held down, and under the pointer.
    pub pressed: bool,
    pub hovered: bool,
    /// Face, face under the pointer, border and ink.
    pub palette: Option<(u32, u32, u32, u32)>,
    pub click: Option<()>,
}

impl RustifyButton {
    pub fn new() -> (r: RustifyButton)
        ensures
            r.label@ == Seq::<char>::empty(),
            !r.disabled && !r.pressed && !r.hovered,
            r.palette is None && r.click is None,
    {
        RustifyButton { label: String::new(), disabled: false, pressed: false, hovered: false, palette: None, click: None }
    }

    /// Takes the application's label and whether the button is disabled, and
    /// says whether that owes the region a redraw.
    pub fn set_state(&mut self, label: &str, disabled: bool) -> (redraw: bool)
        ensures
            redraw == (old(self).label@ != label@ || old(self).disabled != disabled),
            final(self).label@ == label@,
            final(self).disabled == disabled,
            final(self).pressed == old(self).pressed,
            final(self).hovered == old(self).hovered,
            final(self).palette == old(self).palette,
            final(self).click == old(self).click,
    {
        if !str_eq(self.label.as_str(), label) || self.disabled != disabled {
            self.label = label.to_owned();
            self.disabled = disabled;
            true
        } else {
            false
        }
    }

    /// Takes the theme's colours, and says whether that owes a redraw.
    pub fn set_palette(&mut self, face: u32, hover: u32, border: u32, ink: u32) -> (redraw: bool)
        ensures
            redraw == (old(self).palette != Some((face, hover, border, ink))),
            final(self).palette == Some((face, hover, border, ink)),
            final(self).label == old(self).label,
            final(self).disabled == old(self).disabled,
            final(self).pressed == old(self).pressed,
            final(self).hovered == old(self).hovered,
            final(self).click == old(self).click,
    {
        let next = Some((face, hover, border, ink));
        if self.palette != next {
            self.palette = next;
            true
        } else {
            false
        }
    }

    /// The click the last events made, if any; taking it clears it.
    pub fn take_click(&mut self) -> (r: Option<()>)
        ensures
            r == old(self).click,
            final(self).click is None,
            final(self).label == old(self).label,
            final(self).disabled == old(self).disabled,
            final(self).pressed == old(self).pressed,
            final(self).hovered == old(self).hovered,
            final(self).palette == old(self).palette,
    {
        self.click.take()
    }

    /// A finger went down on the button. Only a primary press of an enabled
    /// button holds it down; says whether that owes a redraw.
    pub fn finger_down(&mut self, primary: bool) -> (redraw: bool)
        ensures
            redraw == (primary && !old(self).disabled),
            final(self).pressed == (old(self).pressed || (primary && !old(self).disabled)),
            final(self).click == old(self).click,
            final(self).disabled == old(self).disabled,
    {
        if primary && !self.disabled {
            self.pressed = true;
            true
        } else {
            false
        }
    }

    /// The finger came up. A click is a press that started on the button and
    /// ended over it, with the primary button, on an enabled button.
    pub fn finger_up(&mut self, over: bool, primary: bool)
        ensures
            !final(self).pressed,
            final(self).click == (if old(self).pressed && over && primary && !old(self).disabled {
                Some(())
            } else {
                old(self).click
            }),
            final(self).disabled == old(self).disabled,
    {
        let was = self.pressed;
        self.pressed = false;
        if was && over && primary && !self.disabled {
            self.click = Some(());
        }
    }

    /// The pointer came over the button or left it.
    pub fn hover(&mut self, over: bool)
        ensures
            final(self).hovered == over,
            final(self).pressed == old(self).pressed,
            final(self).click == old(self).click,
    {
        self.hovered = over;
    }

    /// The colour the face is drawn in: the border's when disabled, the
    /// hover colour while pressed or under the pointer, and the face
    /// otherwise.
    pub fn face(&self) -> (r: Option<u32>)
        ensures
            r == match self.palette {
                Some((face, hover, border, _)) => Some(if self.disabled {
                    border
                } else if self.pressed || self.hovered {
                    hover
                } else {
                    face
                }),
                None => None::<u32>,
            },
    {
        match self.palette {
            Some((face, hover, border, _)) => Some(if self.disabled {
                border
            } else if self.pressed || self.hovered {
                hover
            } else {
                face
            }),
            None => None,
        }
    }
}

/// Whether a finger coming up asks for anything: only a primary hit that
/// ends over the control, on a control that may be used. A control the
/// application has closed makes no request; there is nothing to refuse later
/// because nothing was asked.
pub open spec fn asks(over: bool, primary: bool, disabled: bool, read_only: bool) -> bool {
    over && primary && !disabled && !read_only
}

/// A checkbox a region draws. A hit asks for the other state.
#[derive(Clone, Copy, Debug, PartialEq, Eq)]
pub struct RustifyCheckBox {
    pub active: bool,
    pub disabled: bool,
    pub read_only: bool,
    pub palette: Option<(u32, u32, u32)>,
    pub change: Option<bool>,
}

impl RustifyCheckBox {
    pub fn new() -> (r: RustifyCheckBox)
        ensures
            r == (RustifyCheckBox { active: false, disabled: false, read_only: false, palette: None, change: None }),
    {
        RustifyCheckBox { active: false, disabled: false, read_only: false, palette: None, change: None }
    }

    /// Takes the application's state, and says whether that owes the region
    /// a redraw.
    pub fn set_state(&mut self, active: bool, disabled: bool, read_only: bool) -> (redraw: bool)
        ensures
            redraw == (old(self).active != active || old(self).disabled != disabled || old(self).read_only
                != read_only),
            *final(self) == (RustifyCheckBox { active, disabled, read_only, ..*old(self) }),
    {
        if self.active != active || self.disabled != disabled || self.read_only != read_only {
            self.active = active;
            self.disabled = disabled;
            self.read_only = read_only;
            true
        } else {
            false
        }
    }

    /// Takes the theme's colours, and says whether that owes a redraw.
    pub fn set_palette(&mut self, a: u32, b: u32, c: u32) -> (redraw: bool)
        ensures
            redraw == (old(self).palette != Some((a, b, c))),
            *final(self) == (RustifyCheckBox { palette: Some((a, b, c)), ..*old(self) }),
    {
        let next = Some((a, b, c));
        if self.palette != next {
            self.palette = next;
            true
        } else {
            false
        }
    }

    /// The request the last hits made, if any; taking it clears it.
    pub fn take_change(&mut self) -> (r: Option<bool>)
        ensures
            r == old(self).change,
            *final(self) == (RustifyCheckBox { change: None, ..*old(self) }),
    {
        self.change.take()
    }

    /// A finger came up on the control. It asks for the other state.
    pub fn finger_up(&mut self, over: bool, primary: bool)
        ensures
            *final(self) == (if asks(over, primary, old(self).disabled, old(self).read_only) {
                RustifyCheckBox { change: Some(!old(self).active), ..*old(self) }
            } else {
                *old(self)
            }),
    {
        if !over || !primary {
            return;
        }
        if self.disabled || self.read_only {
            return;
        }
        self.change = Some(!self.active);
    }
}

/// A switch a region draws: two states, presented as a thing that moves. A
/// hit asks for the other state.
#[derive(Clone, Copy, Debug, PartialEq, Eq)]
pub struct RustifyToggle {
    pub active: bool,
    pub disabled: bool,
    pub read_only: bool,
    pub palette: Option<(u32, u32, u32)>,
    pub change: Option<bool>,
}

impl RustifyToggle {
    pub fn new() -> (r: RustifyToggle)
        ensures
            r == (RustifyToggle { active: false, disabled: false, read_only: false, palette: None, change: None }),
    {
        RustifyToggle { active: false, disabled: false, read_only: false, palette: None, change: None }
    }

    /// Takes the application's state, and says whether that owes the region
    /// a redraw.
    pub fn set_state(&mut self, active: bool, disabled: bool, read_only: bool) -> (redraw: bool)
        ensures
            redraw == (old(self).active != active || old(self).disabled != disabled || old(self).read_only
                != read_only),
            *final(self) == (RustifyToggle { active, disabled, read_only, ..*old(self) }),
    {
        if self.active != active || self.disabled != disabled || self.read_only != read_only {
            self.active = active;
            self.disabled = disabled;
            self.read_only = read_only;
            true
        } else {
            false
        }
    }

    /// Takes the theme's colours, and says whether that owes a redraw.
    pub fn set_palette(&mut self, a: u32, b: u32, c: u32) -> (redraw: bool)
        ensures
            redraw == (old(self).palette != Some((a, b, c))),
            *final(self) == (RustifyToggle { palette: Some((a, b, c)), ..*old(self) }),
    {
        let next = Some((a, b, c));
        if self.palette != next {
            self.palette = next;
            true
        } else {
            false
        }
    }

    /// The request the last hits made, if any; taking it clears it.
    pub fn take_change(&mut self) -> (r: Option<bool>)
        ensures
            r == old(self).change,
            *final(self) == (RustifyToggle { change: None, ..*old(self) }),
    {
        self.change.take()
    }

    /// A finger came up on the control. It asks for the other state.
    pub fn finger_up(&mut self, over: bool, primary: bool)
        ensures
            *final(self) == (if asks(over, primary, old(self).disabled, old(self).read_only) {
                RustifyToggle { change: Some(!old(self).active), ..*old(self) }
            } else {
                *old(self)
            }),
    {
        if !over || !primary {
            return;
        }
        if self.disabled || self.read_only {
            return;
        }
        self.change = Some(!self.active);
    }
}

/// One choice of several, drawn by a region. It can only be turned on: a
/// hit on the chosen one is not a change.
#[derive(Clone, Copy, Debug, PartialEq, Eq)]
pub struct RustifyRadio {
    pub active: bool,
    pub disabled: bool,
    pub read_only: bool,
    pub palette: Option<(u32, u32, u32)>,
    pub change: Option<()>,
}

impl RustifyRadio {
    pub fn new() -> (r: RustifyRadio)
        ensures
            r == (RustifyRadio { active: false, disabled: false, read_only: false, palette: None, change: None }),
    {
        RustifyRadio { active: false, disabled: false, read_only: false, palette: None, change: None }
    }

    /// Takes the application's state, and says whether that owes the region
    /// a redraw.
    pub fn set_state(&mut self, active: bool, disabled: bool, read_only: bool) -> (redraw: bool)
        ensures
            redraw == (old(self).active != active || old(self).disabled != disabled || old(self).read_only
                != read_only),
            *final(self) == (RustifyRadio { active, disabled, read_only, ..*old(self) }),
    {
        if self.active != active || self.disabled != disabled || self.read_only != read_only {
            self.active = active;
            self.disabled = disabled;
            self.read_only = read_only;
            true
        } else {
            false
        }
    }

    /// Takes the theme's colours, and says whether that owes a redraw.
    pub fn set_palette(&mut self, a: u32, b: u32, c: u32) -> (redraw: bool)
        ensures
            redraw == (old(self).palette != Some((a, b, c))),
            *final(self) == (RustifyRadio { palette: Some((a, b, c)), ..*old(self) }),
    {
        let next = Some((a, b, c));
        if self.palette != next {
            self.palette = next;
            true
        } else {
            false
        }
    }

    /// The request the last hits made, if any; taking it clears it.
    pub fn take_change(&mut self) -> (r: Option<()>)
        ensures
            r == old(self).change,
            *final(self) == (RustifyRadio { change: None, ..*old(self) }),
    {
        self.change.take()
    }

    /// A finger came up on the control. Choosing what is already chosen is not a change.
    pub fn finger_up(&mut self, over: bool, primary: bool)
        ensures
            *final(self) == (if asks(over, primary, old(self).disabled, old(self).read_only) && !old(self).active {
                RustifyRadio { change: Some(()), ..*old(self) }
            } else {
                *old(self)
            }),
    {
        if !over || !primary {
            return;
        }
        if self.disabled || self.read_only {
            return;
        }
        if self.active {
            return;
        }
        self.change = Some(());
    }
}

/// A drop-down's face, drawn by a region. A hit asks for its list to open.
#[derive(Clone, Debug)]
pub struct RustifyDropDown {
    pub label: String,
    pub disabled: bool,
    pub read_only: bool,
    /// Face, border, text and chevron.
    pub palette: Option<(u32, u32, u32, u32)>,
    pub open: Option<()>,
}

impl RustifyDropDown {
    pub fn new() -> (r: RustifyDropDown)
        ensures
            r.label@ == Seq::<char>::empty(),
            !r.disabled && !r.read_only,
            r.palette is None && r.open is None,
    {
        RustifyDropDown { label: String::new(), disabled: false, read_only: false, palette: None, open: None }
    }

    /// Takes the application's state, and says whether that owes a redraw.
    pub fn set_state(&mut self, label: &str, disabled: bool, read_only: bool) -> (redraw: bool)
        ensures
            redraw == (old(self).label@ != label@ || old(self).disabled != disabled || old(self).read_only
                != read_only),
            final(self).label@ == label@,
            final(self).disabled == disabled,
            final(self).read_only == read_only,
            final(self).palette == old(self).palette,
            final(self).open == old(self).open,
    {
        if !str_eq(self.label.as_str(), label) || self.disabled != disabled || self.read_only != read_only {
            self.label = label.to_owned();
            self.disabled = disabled;
            self.read_only = read_only;
            true
        } else {
            false
        }
    }

    /// Takes the theme's colours, and says whether that owes a redraw.
    pub fn set_palette(&mut self, face: u32, border: u32, text: u32, chevron: u32) -> (redraw: bool)
        ensures
            redraw == (old(self).palette != Some((face, border, text, chevron))),
            final(self).palette == Some((face, border, text, chevron)),
            final(self).label == old(self).label,
            final(self).disabled == old(self).disabled,
            final(self).read_only == old(self).read_only,
            final(self).open == old(self).open,
    {
        let next = Some((face, border, text, chevron));
        if self.palette != next {
            self.palette = next;
            true
        } else {
            false
        }
    }

    /// The request to open the list, if the last hits made one.
    pub fn take_open(&mut self) -> (r: Option<()>)
        ensures
            r == old(self).open,
            final(self).open is None,
            final(self).label == old(self).label,
            final(self).disabled == old(self).disabled,
            final(self).read_only == old(self).read_only,
            final(self).palette == old(self).palette,
    {
        self.open.take()
    }

    /// A finger came up on the face: a primary hit that ends over an enabled
    /// drop-down asks for its list. A read-only one still opens: its list
    /// shows what there is to choose from.
    pub fn finger_up(&mut self, over: bool, primary: bool)
        ensures
            final(self).open == (if over && primary && !old(self).disabled {
                Some(())
            } else {
                old(self).open
            }),
            final(self).label == old(self).label,
            final(self).disabled == old(self).disabled,
            final(self).read_only == old(self).read_only,
            final(self).palette == old(self).palette,
    {
        if !over || !primary || self.disabled {
            return;
        }
        self.open = Some(());
    }
}

/// Whether two lists of tab names are the same names in the same order.
fn same_tabs(a: &Vec<String>, b: &[String]) -> (r: bool)
    ensures
        r == (a@.map_values(|t: String| t@) == b@.map_values(|t: String| t@)),
{
    if a.len() != b.len() {
        proof {
            assert(a@.map_values(|t: String| t@).len() != b@.map_values(|t: String| t@).len());
        }
        return false;
    }
    let mut i: usize = 0;
    while i < a.len()
        invariant
            i <= a@.len() == b@.len(),
            forall|k: int| 0 <= k < i ==> a@[k]@ == b@[k]@,
        decreases a@.len() - i,
    {
        if !str_eq(a[i].as_str(), b[i].as_str()) {
            proof {
                assert(a@.map_values(|t: String| t@)[i as int] != b@.map_values(|t: String| t@)[i as int]);
            }
            return false;
        }
        i = i + 1;
    }
    assert(a@.map_values(|t: String| t@) =~= b@.map_values(|t: String| t@));
    true
}

fn copy_tabs(tabs: &[String]) -> (r: Vec<String>)
    ensures
        r@.map_values(|t: String| t@) == tabs@.map_values(|t: String| t@),
{
    let mut out: Vec<String> = Vec::new();
    let mut i: usize = 0;
    while i < tabs.len()
        invariant
            i <= tabs@.len(),
            out@.len() == i,
            forall|k: int| 0 <= k < i ==> out@[k]@ == tabs@[k]@,
        decreases tabs@.len() - i,
    {
        out.push(tabs[i].clone());
        i = i + 1;
    }
    assert(out@.map_values(|t: String| t@) =~= tabs@.map_values(|t: String| t@));
    out
}

/// A strip of tabs a region draws. A hit on a tab other than the active one
/// asks for it.
#[derive(Clone, Debug)]
pub struct RustifyTabBar {
    pub tabs: Vec<String>,
    pub active: usize,
    pub disabled: bool,
    /// Strip, active tab and text.
    pub palette: Option<(u32, u32, u32)>,
    pub change: Option<usize>,
}

impl RustifyTabBar {
    pub fn new() -> (r: RustifyTabBar)
        ensures
            r.tabs@.len() == 0,
            r.active == 0,
            !r.disabled,
            r.palette is None && r.change is None,
    {
        RustifyTabBar { tabs: Vec::new(), active: 0, disabled: false, palette: None, change: None }
    }

    /// Takes the application's tabs, the active one and whether the strip is
    /// disabled, and says whether that owes a redraw.
    pub fn set_state(&mut self, tabs: &[String], active: usize, disabled: bool) -> (redraw: bool)
        ensures
            redraw == (old(self).tabs@.map_values(|t: String| t@) != tabs@.map_values(|t: String| t@)
                || old(self).active != active || old(self).disabled != disabled),
            final(self).tabs@.map_values(|t: String| t@) == tabs@.map_values(|t: String| t@),
            final(self).active == active,
            final(self).disabled == disabled,
            final(self).palette == old(self).palette,
            final(self).change == old(self).change,
    {
        if !same_tabs(&self.tabs, tabs) || self.active != active || self.disabled != disabled {
            self.tabs = copy_tabs(tabs);
            self.active = active;
            self.disabled = disabled;
            true
        } else {
            false
        }
    }

    /// Takes the theme's colours, and says whether that owes a redraw.
    pub fn set_palette(&mut self, strip: u32, active: u32, text: u32) -> (redraw: bool)
        ensures
            redraw == (old(self).palette != Some((strip, active, text))),
            final(self).palette == Some((strip, active, text)),
            final(self).tabs == old(self).tabs,
            final(self).active == old(self).active,
            final(self).disabled == old(self).disabled,
            final(self).change == old(self).change,
    {
        let next = Some((strip, active, text));
        if self.palette != next {
            self.palette = next;
            true
        } else {
            false
        }
    }

    /// The tab the last hits asked for, if any; taking it clears it.
    pub fn take_change(&mut self) -> (r: Option<usize>)
        ensures
            r == old(self).change,
            final(self).change is None,
            final(self).tabs == old(self).tabs,
            final(self).active == old(self).active,
            final(self).disabled == old(self).disabled,
            final(self).palette == old(self).palette,
    {
        self.change.take()
    }

    /// A finger came up on the strip, over tab `hit` if it hit one. Choosing
    /// the active tab again is not a change.
    pub fn finger_up(&mut self, over: bool, primary: bool, hit: Option<usize>)
        ensures
            final(self).change == (if over && primary && !old(self).disabled && hit is Some && hit != Some(
                old(self).active,
            ) {
                hit
            } else {
                old(self).change
            }),
            final(self).tabs == old(self).tabs,
            final(self).active == old(self).active,
            final(self).disabled == old(self).disabled,
            final(self).palette == old(self).palette,
    {
        if !over || !primary || self.disabled {
            return;
        }
        match hit {
            Some(h) => {
                if h != self.active {
                    self.change = Some(h);
                }
            },
            None => {},
        }
    }
}

/// The shapes an icon can be.
#[derive(Clone, Copy, Debug, PartialEq, Eq, Structural)]
pub enum Glyph {
    Check,
    ChevronDown,
    ChevronUp,
    ChevronRight,
    Close,
    Dot,
}

impl Default for Glyph {
    fn default() -> (r: Glyph)
        ensures
            r == Glyph::Check,
    {
        Glyph::Check
    }
}

pub open spec fn glyph_name(g: Glyph) -> Seq<char> {
    match g {
        Glyph::Check => "check"@,
        Glyph::ChevronDown => "chevron-down"@,
        Glyph::ChevronUp => "chevron-up"@,
        Glyph::ChevronRight => "chevron-right"@,
        Glyph::Close => "close"@,
        Glyph::Dot => "dot"@,
    }
}

impl Glyph {
    pub fn name(self) -> (r: &'static str)
        ensures
            r@ == glyph_name(self),
    {
        match self {
            Glyph::Check => "check",
            Glyph::ChevronDown => "chevron-down",
            Glyph::ChevronUp => "chevron-up",
            Glyph::ChevronRight => "chevron-right",
            Glyph::Close => "close",
            Glyph::Dot => "dot",
        }
    }
}

/// An icon a region draws.
#[derive(Clone, Copy, Debug, PartialEq, Eq, Structural)]
pub struct RustifyIcon {
    pub glyph: Glyph,
    pub ink: Option<u32>,
}

impl RustifyIcon {
    pub fn new() -> (r: RustifyIcon)
        ensures
            r == (RustifyIcon { glyph: Glyph::Check, ink: None }),
    {
        RustifyIcon { glyph: Glyph::Check, ink: None }
    }

    /// Takes the shape, and says whether that owes a redraw.
    pub fn set_glyph(&mut self, glyph: Glyph) -> (redraw: bool)
        ensures
            redraw == (old(self).glyph != glyph),
            *final(self) == (RustifyIcon { glyph, ..*old(self) }),
    {
        if self.glyph != glyph {
            self.glyph = glyph;
            true
        } else {
            false
        }
    }

    /// Takes the colour, and says whether that owes a redraw.
    pub fn set_ink(&mut self, ink: u32) -> (redraw: bool)
        ensures
            redraw == (old(self).ink != Some(ink)),
            *final(self) == (RustifyIcon { ink: Some(ink), ..*old(self) }),
    {
        if self.ink != Some(ink) {
            self.ink = Some(ink);
            true
        } else {
            false
        }
    }
}

/// A spinner a region draws. It turns while spinning, unless the person asked
/// for less movement, when it stands still and still says it is busy.
#[derive(Clone, Copy, Debug, PartialEq, Eq, Structural)]
pub struct RustifySpinner {
    pub spinning: bool,
    pub still: bool,
    pub ink: Option<u32>,
}

impl RustifySpinner {
    pub fn new() -> (r: RustifySpinner)
        ensures
            r == (RustifySpinner { spinning: false, still: false, ink: None }),
    {
        RustifySpinner { spinning: false, still: false, ink: None }
    }

    /// Takes whether it spins and whether it must stand still, and says
    /// whether that owes a redraw.
    pub fn set_state(&mut self, spinning: bool, still: bool) -> (redraw: bool)
        ensures
            redraw == (old(self).spinning != spinning || old(self).still != still),
            *final(self) == (RustifySpinner { spinning, still, ..*old(self) }),
    {
        if self.spinning != spinning || self.still != still {
            self.spinning = spinning;
            self.still = still;
            true
        } else {
            false
        }
    }

    /// Takes the colour, and says whether that owes a redraw.
    pub fn set_ink(&mut self, ink: u32) -> (redraw: bool)
        ensures
            redraw == (old(self).ink != Some(ink)),
            *final(self) == (RustifySpinner { ink: Some(ink), ..*old(self) }),
    {
        if self.ink != Some(ink) {
            self.ink = Some(ink);
            true
        } else {
            false
        }
    }

    /// Whether it is turning: spinning, and not asked to stand still.
    pub fn turning(&self) -> (r: bool)
        ensures
            r == (self.spinning && !self.still),
    {
        self.spinning && !self.still
    }
}

/// A control the application has closed never asks for anything, whatever
/// the pointer does.
pub proof fn law_a_closed_control_asks_nothing(over: bool, primary: bool, disabled: bool, read_only: bool)
    ensures
        (disabled || read_only) ==> !asks(over, primary, disabled, read_only),
{
}

} // verus!
