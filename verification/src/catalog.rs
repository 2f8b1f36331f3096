//! What each component category actually supports, in one table.
//!
//! The catalogue lists eighteen categories with no blank support cell. This
//! release ships nine of them; the other nine are in the table as well,
//! saying plainly that they are not here.
//!
//! Every entry answers the same six questions (properties, actions, theme,
//! input, accessibility, environment), so a reader never has to guess whether
//! a silence means "yes" or "nobody looked".

use vstd::prelude::*;
use crate::strings::push_str;

verus! {

/// The eighteen categories. The catalogue covers all of them; it does not
/// implement all of them.
#[derive(Clone, Copy, Debug, PartialEq, Eq, Structural)]
pub enum Category {
    Button,
    Label,
    Link,
    Icon,
    TextField,
    TextArea,
    Checkbox,
    Radio,
    Switch,
    Select,
    Slider,
    Progress,
    Loading,
    Tooltip,
    Menu,
    Dialog,
    Tabs,
    ScrollArea,
}

/// The name the catalogue prints for a category.
pub open spec fn category_name(c: Category) -> Seq<char> {
    match c {
        Category::Button => "button"@,
        Category::Label => "label"@,
        Category::Link => "link"@,
        Category::Icon => "icon"@,
        Category::TextField => "text field"@,
        Category::TextArea => "text area"@,
        Category::Checkbox => "checkbox"@,
        Category::Radio => "radio"@,
        Category::Switch => "switch"@,
        Category::Select => "select"@,
        Category::Slider => "slider"@,
        Category::Progress => "progress"@,
        Category::Loading => "loading"@,
        Category::Tooltip => "tooltip"@,
        Category::Menu => "menu"@,
        Category::Dialog => "dialog"@,
        Category::Tabs => "tabs"@,
        Category::ScrollArea => "scroll area"@,
    }
}

impl Category {
    /// The name the catalogue prints, and the one the plan uses.
    pub fn name(self) -> (r: &'static str)
        ensures
            r@ == category_name(self),
    {
        match self {
            Category::Button => "button",
            Category::Label => "label",
            Category::Link => "link",
            Category::Icon => "icon",
            Category::TextField => "text field",
            Category::TextArea => "text area",
            Category::Checkbox => "checkbox",
            Category::Radio => "radio",
            Category::Switch => "switch",
            Category::Select => "select",
            Category::Slider => "slider",
            Category::Progress => "progress",
            Category::Loading => "loading",
            Category::Tooltip => "tooltip",
            Category::Menu => "menu",
            Category::Dialog => "dialog",
            Category::Tabs => "tabs",
            Category::ScrollArea => "scroll area",
        }
    }
}

/// How far one capability goes.
///
/// There is deliberately no `Unknown`: a question nobody answered is a gap in
/// the catalogue, not a state a component can be in.
#[derive(Clone, Copy, Debug, PartialEq, Eq, Structural)]
pub enum Support {
    /// Implemented and covered by a test in this release.
    Yes,
    /// Implemented, with a stated limit.
    Partial,
    /// Not in this release.
    No,
}

pub open spec fn support_name(s: Support) -> Seq<char> {
    match s {
        Support::Yes => "yes"@,
        Support::Partial => "partial"@,
        Support::No => "no"@,
    }
}

impl Support {
    pub fn name(self) -> (r: &'static str)
        ensures
            r@ == support_name(self),
    {
        match self {
            Support::Yes => "yes",
            Support::Partial => "partial",
            Support::No => "no",
        }
    }
}

/// One answer, and the reason for it. The reason is never empty - a bare
/// "partial" tells a reader nothing they can act on.
#[derive(Clone, Copy, Debug, PartialEq, Eq)]
pub struct Capability {
    pub support: Support,
    pub note: &'static str,
}

/// Where a category is drawn, and whether one value can drive both halves.
///
/// `across_regions` is the interesting column: it says the component keeps one
/// value and one action path across the DOM/GPU boundary.
#[derive(Clone, Copy, Debug, PartialEq, Eq, Structural)]
pub struct Presentation {
    pub dom: Support,
    pub gpu: Support,
    pub across_regions: Support,
}

/// One row of the catalogue.
#[derive(Clone, Copy, Debug, PartialEq, Eq)]
pub struct Entry {
    pub category: Category,
    pub presentation: Presentation,
    /// Which values the component takes and what it does with them.
    pub properties: Capability,
    /// What the user can make it do, and what the application hears.
    pub actions: Capability,
    /// Whether it follows the scope's theme tokens.
    pub theme: Capability,
    /// Pointer, keyboard and text input.
    pub input: Capability,
    /// Name, role, value, state and a keyboard path to the same result.
    pub accessibility: Capability,
    /// Where it has been run: browser, strict CSP, and what it needs.
    pub environment: Capability,
}

/// The six classes of an entry, named, in the order the catalogue prints them.
pub open spec fn classes(e: Entry) -> Seq<(Seq<char>, Capability)> {
    seq![
        ("properties"@, e.properties),
        ("actions"@, e.actions),
        ("theme"@, e.theme),
        ("input"@, e.input),
        ("accessibility"@, e.accessibility),
        ("environment"@, e.environment),
    ]
}

/// Whether a release ships anything for the category at all.
pub open spec fn is_shipped(e: Entry) -> bool {
    e.presentation.dom != Support::No || e.presentation.gpu != Support::No
}

impl Entry {
    /// The six classes in the order the catalogue prints them.
    pub fn capabilities(&self) -> (r: [(&'static str, Capability); 6])
        ensures
            r@.map_values(|c: (&'static str, Capability)| (c.0@, c.1)) == classes(*self),
    {
        let r = [
            ("properties", self.properties),
            ("actions", self.actions),
            ("theme", self.theme),
            ("input", self.input),
            ("accessibility", self.accessibility),
            ("environment", self.environment),
        ];
        assert(r@.map_values(|c: (&'static str, Capability)| (c.0@, c.1)) =~= classes(*self));
        r
    }

    /// Whether this release ships anything for the category at all.
    pub fn shipped(&self) -> (r: bool)
        ensures
            r == is_shipped(*self),
    {
        self.presentation.dom != Support::No || self.presentation.gpu != Support::No
    }
}

/// Why the nine categories this release does not ship are absent. One
/// sentence, used by every one of them, so the reason cannot drift between
/// rows.
pub const LATER: &'static str = "not in P1; the eighteen-category catalogue is P2 M2";

/// The row of a category this release does not ship.
pub open spec fn absent_row(category: Category) -> Entry {
    Entry {
        category,
        presentation: Presentation { dom: Support::No, gpu: Support::No, across_regions: Support::No },
        properties: Capability { support: Support::No, note: LATER },
        actions: Capability { support: Support::No, note: LATER },
        theme: Capability { support: Support::No, note: LATER },
        input: Capability { support: Support::No, note: LATER },
        accessibility: Capability { support: Support::No, note: LATER },
        environment: Capability { support: Support::No, note: LATER },
    }
}

/// The catalogue's row for each category.
pub open spec fn catalog_row(c: Category) -> Entry {
    match c {
        Category::Button => Entry {
            category: Category::Button,
            presentation: Presentation { dom: Support::Yes, gpu: Support::Yes, across_regions: Support::Yes },
            properties: Capability { support: Support::Yes, note: "label, disabled; a disabled button emits nothing" },
            actions: Capability { support: Support::Yes, note: "click; the DOM and the GPU button call the same application action" },
            theme: Capability { support: Support::Yes, note: "scope tokens: primary, foreground, radius" },
            input: Capability { support: Support::Yes, note: "pointer and Enter/Space, from either half" },
            accessibility: Capability { support: Support::Yes, note: "native button in the DOM; the GPU button has a DOM control with the same name and action" },
            environment: Capability { support: Support::Yes, note: "macOS Chrome, strict CSP, WebGL2 region; no inline script or style" },
        },
        Category::Label => Entry {
            category: Category::Label,
            presentation: Presentation { dom: Support::Yes, gpu: Support::Yes, across_regions: Support::Yes },
            properties: Capability { support: Support::Yes, note: "text; optional association with a control" },
            actions: Capability { support: Support::No, note: "a label has none; clicking one focuses its control" },
            theme: Capability { support: Support::Yes, note: "scope tokens: foreground, muted" },
            input: Capability { support: Support::Yes, note: "selectable text in the DOM" },
            accessibility: Capability { support: Support::Yes, note: "names the control it wraps; GPU text is decoration and stays out of the tree" },
            environment: Capability { support: Support::Yes, note: "macOS Chrome, strict CSP; GPU text needs the region's font" },
        },
        Category::Link => absent_row(Category::Link),
        Category::Icon => absent_row(Category::Icon),
        Category::TextField => Entry {
            category: Category::TextField,
            presentation: Presentation { dom: Support::Yes, gpu: Support::Partial, across_regions: Support::Yes },
            properties: Capability { support: Support::Yes, note: "value, disabled, read-only; a refused value is shown as the application's, not the keystrokes'" },
            actions: Capability { support: Support::Yes, note: "input and commit; the application owns the value" },
            theme: Capability { support: Support::Yes, note: "scope tokens: input, border, ring, radius" },
            input: Capability { support: Support::Yes, note: "the browser's own control, so IME composition is the platform's" },
            accessibility: Capability { support: Support::Yes, note: "native input with a label; five keyboard journeys" },
            environment: Capability { support: Support::Partial, note: "the GPU half displays the value and hands editing to a native control over its rectangle; it is not a GPU text editor" },
        },
        Category::TextArea => Entry {
            category: Category::TextArea,
            presentation: Presentation { dom: Support::Yes, gpu: Support::Partial, across_regions: Support::Yes },
            properties: Capability { support: Support::Yes, note: "value, rows, disabled, read-only" },
            actions: Capability { support: Support::Yes, note: "input and commit on leaving; Enter is a newline, not a commit" },
            theme: Capability { support: Support::Yes, note: "scope tokens: input, border, ring, radius" },
            input: Capability { support: Support::Yes, note: "the browser's own control; several lines" },
            accessibility: Capability { support: Support::Yes, note: "native textarea with a label" },
            environment: Capability { support: Support::Partial, note: "the GPU half shows the first line only; editing is the native control's" },
        },
        Category::Checkbox => Entry {
            category: Category::Checkbox,
            presentation: Presentation { dom: Support::Yes, gpu: Support::Yes, across_regions: Support::Yes },
            properties: Capability { support: Support::Yes, note: "checked, disabled, read-only; read-only reverts the browser's own toggle" },
            actions: Capability { support: Support::Yes, note: "change; both halves call one application action" },
            theme: Capability { support: Support::Yes, note: "scope tokens: primary, border, ring" },
            input: Capability { support: Support::Yes, note: "pointer and Space, from either half" },
            accessibility: Capability { support: Support::Yes, note: "native checkbox in the DOM; the GPU one has a DOM control with the same name, state and action" },
            environment: Capability { support: Support::Yes, note: "macOS Chrome, strict CSP, WebGL2 region" },
        },
        Category::Radio => absent_row(Category::Radio),
        Category::Switch => absent_row(Category::Switch),
        Category::Select => absent_row(Category::Select),
        Category::Slider => Entry {
            category: Category::Slider,
            presentation: Presentation { dom: Support::Yes, gpu: Support::Yes, across_regions: Support::Yes },
            properties: Capability { support: Support::Yes, note: "value, min, max, step, disabled, read-only; the value is clamped and snapped before the application sees it" },
            actions: Capability { support: Support::Yes, note: "change; both halves call one application action" },
            theme: Capability { support: Support::Yes, note: "scope tokens: primary, border, ring" },
            input: Capability { support: Support::Yes, note: "pointer drag and arrow keys, from either half" },
            accessibility: Capability { support: Support::Yes, note: "native range in the DOM; the GPU one has a DOM control with the same name and value" },
            environment: Capability { support: Support::Yes, note: "macOS Chrome, strict CSP, WebGL2 region" },
        },
        Category::Progress => absent_row(Category::Progress),
        Category::Loading => Entry {
            category: Category::Loading,
            presentation: Presentation { dom: Support::Yes, gpu: Support::No, across_regions: Support::Yes },
            properties: Capability { support: Support::Yes, note: "the four states of `Load`: loading, empty, ready, error; empty is an answer, not a missing one" },
            actions: Capability { support: Support::Yes, note: "one application-defined retry on the error state" },
            theme: Capability { support: Support::Yes, note: "scope tokens: muted, destructive" },
            input: Capability { support: Support::Yes, note: "the retry control is an ordinary button" },
            accessibility: Capability { support: Support::Yes, note: "the state is a live status; the error is an alert with the retry beside it" },
            environment: Capability { support: Support::Yes, note: "a region can be covered by one, but the view itself is DOM" },
        },
        Category::Tooltip => absent_row(Category::Tooltip),
        Category::Menu => Entry {
            category: Category::Menu,
            presentation: Presentation { dom: Support::Yes, gpu: Support::No, across_regions: Support::Yes },
            properties: Capability { support: Support::Yes, note: "anchor, items, open state owned by the application" },
            actions: Capability { support: Support::Yes, note: "item activation and close; Escape closes the top layer only" },
            theme: Capability { support: Support::Yes, note: "scope tokens: background, border, radius" },
            input: Capability { support: Support::Yes, note: "pointer and keyboard; the layer owns Escape while it is open" },
            accessibility: Capability { support: Support::Yes, note: "menu/menuitem roles; focus returns to the control it was opened from" },
            environment: Capability { support: Support::Partial, note: "anchors to a rectangle inside a GPU region within one CSS pixel, but does not flip or clamp to the viewport" },
        },
        Category::Dialog => Entry {
            category: Category::Dialog,
            presentation: Presentation { dom: Support::Yes, gpu: Support::No, across_regions: Support::Yes },
            properties: Capability { support: Support::Yes, note: "modal, anchor, open state owned by the application" },
            actions: Capability { support: Support::Yes, note: "close; Escape closes the top layer only" },
            theme: Capability { support: Support::Yes, note: "scope tokens: background, border, radius" },
            input: Capability { support: Support::Yes, note: "clicks do not reach what a modal covers, region included" },
            accessibility: Capability { support: Support::Yes, note: "the scope's own content is inert while a modal is open; focus returns on close" },
            environment: Capability { support: Support::Partial, note: "only this scope is made inert; a host page outside it is not" },
        },
        Category::Tabs => absent_row(Category::Tabs),
        Category::ScrollArea => absent_row(Category::ScrollArea),
    }
}

/// The categories in the order the catalogue lists them.
pub open spec fn category_at(i: int) -> Category {
    if i == 0 {
        Category::Button
    } else if i == 1 {
        Category::Label
    } else if i == 2 {
        Category::Link
    } else if i == 3 {
        Category::Icon
    } else if i == 4 {
        Category::TextField
    } else if i == 5 {
        Category::TextArea
    } else if i == 6 {
        Category::Checkbox
    } else if i == 7 {
        Category::Radio
    } else if i == 8 {
        Category::Switch
    } else if i == 9 {
        Category::Select
    } else if i == 10 {
        Category::Slider
    } else if i == 11 {
        Category::Progress
    } else if i == 12 {
        Category::Loading
    } else if i == 13 {
        Category::Tooltip
    } else if i == 14 {
        Category::Menu
    } else if i == 15 {
        Category::Dialog
    } else if i == 16 {
        Category::Tabs
    } else {
        Category::ScrollArea
    }
}

/// Where a category stands in the catalogue.
pub open spec fn category_index(c: Category) -> int {
    match c {
        Category::Button => 0,
        Category::Label => 1,
        Category::Link => 2,
        Category::Icon => 3,
        Category::TextField => 4,
        Category::TextArea => 5,
        Category::Checkbox => 6,
        Category::Radio => 7,
        Category::Switch => 8,
        Category::Select => 9,
        Category::Slider => 10,
        Category::Progress => 11,
        Category::Loading => 12,
        Category::Tooltip => 13,
        Category::Menu => 14,
        Category::Dialog => 15,
        Category::Tabs => 16,
        Category::ScrollArea => 17,
    }
}

/// The catalogue: the row of each category, in catalogue order.
pub open spec fn catalog_rows() -> Seq<Entry> {
    Seq::new(18, |i: int| catalog_row(category_at(i)))
}

fn absent(category: Category) -> (r: Entry)
    ensures
        r == absent_row(category),
{
    Entry {
        category,
        presentation: Presentation { dom: Support::No, gpu: Support::No, across_regions: Support::No },
        properties: Capability { support: Support::No, note: LATER },
        actions: Capability { support: Support::No, note: LATER },
        theme: Capability { support: Support::No, note: LATER },
        input: Capability { support: Support::No, note: LATER },
        accessibility: Capability { support: Support::No, note: LATER },
        environment: Capability { support: Support::No, note: LATER },
    }
}

/// The row for one category.
pub fn entry(category: Category) -> (r: Entry)
    ensures
        r == catalog_row(category),
{
    match category {
        Category::Button => Entry {
            category: Category::Button,
            presentation: Presentation { dom: Support::Yes, gpu: Support::Yes, across_regions: Support::Yes },
            properties: Capability { support: Support::Yes, note: "label, disabled; a disabled button emits nothing" },
            actions: Capability { support: Support::Yes, note: "click; the DOM and the GPU button call the same application action" },
            theme: Capability { support: Support::Yes, note: "scope tokens: primary, foreground, radius" },
            input: Capability { support: Support::Yes, note: "pointer and Enter/Space, from either half" },
            accessibility: Capability { support: Support::Yes, note: "native button in the DOM; the GPU button has a DOM control with the same name and action" },
            environment: Capability { support: Support::Yes, note: "macOS Chrome, strict CSP, WebGL2 region; no inline script or style" },
        },
        Category::Label => Entry {
            category: Category::Label,
            presentation: Presentation { dom: Support::Yes, gpu: Support::Yes, across_regions: Support::Yes },
            properties: Capability { support: Support::Yes, note: "text; optional association with a control" },
            actions: Capability { support: Support::No, note: "a label has none; clicking one focuses its control" },
            theme: Capability { support: Support::Yes, note: "scope tokens: foreground, muted" },
            input: Capability { support: Support::Yes, note: "selectable text in the DOM" },
            accessibility: Capability { support: Support::Yes, note: "names the control it wraps; GPU text is decoration and stays out of the tree" },
            environment: Capability { support: Support::Yes, note: "macOS Chrome, strict CSP; GPU text needs the region's font" },
        },
        Category::Link => absent(Category::Link),
        Category::Icon => absent(Category::Icon),
        Category::TextField => Entry {
            category: Category::TextField,
            presentation: Presentation { dom: Support::Yes, gpu: Support::Partial, across_regions: Support::Yes },
            properties: Capability { support: Support::Yes, note: "value, disabled, read-only; a refused value is shown as the application's, not the keystrokes'" },
            actions: Capability { support: Support::Yes, note: "input and commit; the application owns the value" },
            theme: Capability { support: Support::Yes, note: "scope tokens: input, border, ring, radius" },
            input: Capability { support: Support::Yes, note: "the browser's own control, so IME composition is the platform's" },
            accessibility: Capability { support: Support::Yes, note: "native input with a label; five keyboard journeys" },
            environment: Capability { support: Support::Partial, note: "the GPU half displays the value and hands editing to a native control over its rectangle; it is not a GPU text editor" },
        },
        Category::TextArea => Entry {
            category: Category::TextArea,
            presentation: Presentation { dom: Support::Yes, gpu: Support::Partial, across_regions: Support::Yes },
            properties: Capability { support: Support::Yes, note: "value, rows, disabled, read-only" },
            actions: Capability { support: Support::Yes, note: "input and commit on leaving; Enter is a newline, not a commit" },
            theme: Capability { support: Support::Yes, note: "scope tokens: input, border, ring, radius" },
            input: Capability { support: Support::Yes, note: "the browser's own control; several lines" },
            accessibility: Capability { support: Support::Yes, note: "native textarea with a label" },
            environment: Capability { support: Support::Partial, note: "the GPU half shows the first line only; editing is the native control's" },
        },
        Category::Checkbox => Entry {
            category: Category::Checkbox,
            presentation: Presentation { dom: Support::Yes, gpu: Support::Yes, across_regions: Support::Yes },
            properties: Capability { support: Support::Yes, note: "checked, disabled, read-only; read-only reverts the browser's own toggle" },
            actions: Capability { support: Support::Yes, note: "change; both halves call one application action" },
            theme: Capability { support: Support::Yes, note: "scope tokens: primary, border, ring" },
            input: Capability { support: Support::Yes, note: "pointer and Space, from either half" },
            accessibility: Capability { support: Support::Yes, note: "native checkbox in the DOM; the GPU one has a DOM control with the same name, state and action" },
            environment: Capability { support: Support::Yes, note: "macOS Chrome, strict CSP, WebGL2 region" },
        },
        Category::Radio => absent(Category::Radio),
        Category::Switch => absent(Category::Switch),
        Category::Select => absent(Category::Select),
        Category::Slider => Entry {
            category: Category::Slider,
            presentation: Presentation { dom: Support::Yes, gpu: Support::Yes, across_regions: Support::Yes },
            properties: Capability { support: Support::Yes, note: "value, min, max, step, disabled, read-only; the value is clamped and snapped before the application sees it" },
            actions: Capability { support: Support::Yes, note: "change; both halves call one application action" },
            theme: Capability { support: Support::Yes, note: "scope tokens: primary, border, ring" },
            input: Capability { support: Support::Yes, note: "pointer drag and arrow keys, from either half" },
            accessibility: Capability { support: Support::Yes, note: "native range in the DOM; the GPU one has a DOM control with the same name and value" },
            environment: Capability { support: Support::Yes, note: "macOS Chrome, strict CSP, WebGL2 region" },
        },
        Category::Progress => absent(Category::Progress),
        Category::Loading => Entry {
            category: Category::Loading,
            presentation: Presentation { dom: Support::Yes, gpu: Support::No, across_regions: Support::Yes },
            properties: Capability { support: Support::Yes, note: "the four states of `Load`: loading, empty, ready, error; empty is an answer, not a missing one" },
            actions: Capability { support: Support::Yes, note: "one application-defined retry on the error state" },
            theme: Capability { support: Support::Yes, note: "scope tokens: muted, destructive" },
            input: Capability { support: Support::Yes, note: "the retry control is an ordinary button" },
            accessibility: Capability { support: Support::Yes, note: "the state is a live status; the error is an alert with the retry beside it" },
            environment: Capability { support: Support::Yes, note: "a region can be covered by one, but the view itself is DOM" },
        },
        Category::Tooltip => absent(Category::Tooltip),
        Category::Menu => Entry {
            category: Category::Menu,
            presentation: Presentation { dom: Support::Yes, gpu: Support::No, across_regions: Support::Yes },
            properties: Capability { support: Support::Yes, note: "anchor, items, open state owned by the application" },
            actions: Capability { support: Support::Yes, note: "item activation and close; Escape closes the top layer only" },
            theme: Capability { support: Support::Yes, note: "scope tokens: background, border, radius" },
            input: Capability { support: Support::Yes, note: "pointer and keyboard; the layer owns Escape while it is open" },
            accessibility: Capability { support: Support::Yes, note: "menu/menuitem roles; focus returns to the control it was opened from" },
            environment: Capability { support: Support::Partial, note: "anchors to a rectangle inside a GPU region within one CSS pixel, but does not flip or clamp to the viewport" },
        },
        Category::Dialog => Entry {
            category: Category::Dialog,
            presentation: Presentation { dom: Support::Yes, gpu: Support::No, across_regions: Support::Yes },
            properties: Capability { support: Support::Yes, note: "modal, anchor, open state owned by the application" },
            actions: Capability { support: Support::Yes, note: "close; Escape closes the top layer only" },
            theme: Capability { support: Support::Yes, note: "scope tokens: background, border, radius" },
            input: Capability { support: Support::Yes, note: "clicks do not reach what a modal covers, region included" },
            accessibility: Capability { support: Support::Yes, note: "the scope's own content is inert while a modal is open; focus returns on close" },
            environment: Capability { support: Support::Partial, note: "only this scope is made inert; a host page outside it is not" },
        },
        Category::Tabs => absent(Category::Tabs),
        Category::ScrollArea => absent(Category::ScrollArea),
    }
}

/// The catalogue. Nine categories this release ships, nine it does not.
pub fn catalog() -> (r: [Entry; 18])
    ensures
        r@ == catalog_rows(),
{
    let r = [
        entry(Category::Button),
        entry(Category::Label),
        entry(Category::Link),
        entry(Category::Icon),
        entry(Category::TextField),
        entry(Category::TextArea),
        entry(Category::Checkbox),
        entry(Category::Radio),
        entry(Category::Switch),
        entry(Category::Select),
        entry(Category::Slider),
        entry(Category::Progress),
        entry(Category::Loading),
        entry(Category::Tooltip),
        entry(Category::Menu),
        entry(Category::Dialog),
        entry(Category::Tabs),
        entry(Category::ScrollArea),
    ];
    assert(r@ =~= catalog_rows());
    r
}
/// The first line of the printed catalogue: the ten column names.
pub open spec fn header_names() -> Seq<char> {
    "| category | DOM | GPU | across regions | properties | actions | theme | input | accessibility | environment |\n"@
}

/// The second line of the printed catalogue.
pub open spec fn header_rule() -> Seq<char> {
    "| --- | --- | --- | --- | --- | --- | --- | --- | --- | --- |\n"@
}

/// One capability as a cell: its support, a dash, and its reason.
pub open spec fn capability_cell(c: Capability) -> Seq<char> {
    " "@ + support_name(c.support) + " — "@ + c.note@ + " |"@
}

/// The four cells that say where a category is drawn.
pub open spec fn row_head(e: Entry) -> Seq<char> {
    "| "@ + category_name(e.category) + " | "@ + support_name(e.presentation.dom) + " | "@ + support_name(
        e.presentation.gpu,
    ) + " | "@ + support_name(e.presentation.across_regions) + " |"@
}

/// One row of the printed catalogue.
pub open spec fn row_text(e: Entry) -> Seq<char> {
    row_head(e) + capability_cell(e.properties) + capability_cell(e.actions) + capability_cell(e.theme)
        + capability_cell(e.input) + capability_cell(e.accessibility) + capability_cell(e.environment)
        + "\n"@
}

pub open spec fn rows_text(es: Seq<Entry>) -> Seq<char>
    decreases es.len(),
{
    if es.len() == 0 {
        Seq::empty()
    } else {
        rows_text(es.drop_last()) + row_text(es.last())
    }
}

/// The catalogue as the capability document prints it.
pub open spec fn markdown_text(es: Seq<Entry>) -> Seq<char> {
    header_names() + header_rule() + rows_text(es)
}

fn push_cell(out: &mut String, c: Capability)
    ensures
        final(out)@ == old(out)@ + capability_cell(c),
{
    push_str(out, " ");
    push_str(out, c.support.name());
    push_str(out, " — ");
    push_str(out, c.note);
    push_str(out, " |");
    assert(out@ =~= old(out)@ + capability_cell(c));
}

fn push_head(out: &mut String, e: &Entry)
    ensures
        final(out)@ == old(out)@ + row_head(*e),
{
    let ghost o = old(out)@;
    push_str(out, "| ");
    push_str(out, e.category.name());
    assert(out@ =~= o + ("| "@ + category_name(e.category)));
    push_str(out, " | ");
    push_str(out, e.presentation.dom.name());
    assert(out@ =~= o + ("| "@ + category_name(e.category) + " | "@ + support_name(e.presentation.dom)));
    push_str(out, " | ");
    push_str(out, e.presentation.gpu.name());
    assert(out@ =~= o + ("| "@ + category_name(e.category) + " | "@ + support_name(e.presentation.dom) + " | "@
        + support_name(e.presentation.gpu)));
    push_str(out, " | ");
    push_str(out, e.presentation.across_regions.name());
    push_str(out, " |");
    assert(out@ =~= o + row_head(*e));
}

fn push_row(out: &mut String, e: &Entry)
    ensures
        final(out)@ == old(out)@ + row_text(*e),
{
    let ghost o = old(out)@;
    push_head(out, e);
    push_cell(out, e.properties);
    assert(out@ =~= o + (row_head(*e) + capability_cell(e.properties)));
    push_cell(out, e.actions);
    assert(out@ =~= o + (row_head(*e) + capability_cell(e.properties) + capability_cell(e.actions)));
    push_cell(out, e.theme);
    let ghost p3 = row_head(*e) + capability_cell(e.properties) + capability_cell(e.actions) + capability_cell(e.theme);
    assert(out@ =~= o + p3);
    push_cell(out, e.input);
    assert(out@ =~= o + (p3 + capability_cell(e.input)));
    push_cell(out, e.accessibility);
    let ghost p5 = p3 + capability_cell(e.input) + capability_cell(e.accessibility);
    assert(out@ =~= o + p5);
    push_cell(out, e.environment);
    assert(out@ =~= o + (p5 + capability_cell(e.environment)));
    push_str(out, "\n");
    assert(out@ =~= o + row_text(*e));
}

/// The catalogue as the capability document prints it.
pub fn markdown() -> (r: String)
    ensures
        r@ == markdown_text(catalog_rows()),
{
    let mut out = String::new();
    push_str(
        &mut out,
        "| category | DOM | GPU | across regions | properties | actions | theme | input | accessibility | environment |\n",
    );
    push_str(&mut out, "| --- | --- | --- | --- | --- | --- | --- | --- | --- | --- |\n");
    let rows = catalog();
    let ghost head = out@;
    assert(head =~= header_names() + header_rule());
    let mut i: usize = 0;
    while i < 18
        invariant
            i <= 18,
            rows@ == catalog_rows(),
            head == header_names() + header_rule(),
            out@ == head + rows_text(catalog_rows().take(i as int)),
        decreases 18 - i,
    {
        push_row(&mut out, &rows[i]);
        proof {
            let t = catalog_rows().take(i + 1);
            assert(t.drop_last() =~= catalog_rows().take(i as int));
            assert(t.last() == rows@[i as int]);
        }
        i = i + 1;
        assert(out@ =~= head + rows_text(catalog_rows().take(i as int)));
    }
    assert(catalog_rows().take(18) =~= catalog_rows());
    out
}

// ------------------------------------------------------------------ laws

/// The columns of the printed catalogue, left to right.
pub open spec fn column_names() -> Seq<Seq<char>> {
    seq![
        "category"@,
        "DOM"@,
        "GPU"@,
        "across regions"@,
        "properties"@,
        "actions"@,
        "theme"@,
        "input"@,
        "accessibility"@,
        "environment"@,
    ]
}

/// One capability as a reader sees it: its support, a dash, its reason.
pub open spec fn capability_text(c: Capability) -> Seq<char> {
    support_name(c.support) + " — "@ + c.note@
}

/// What an entry says in the column of that name.
pub open spec fn column_value(e: Entry, column: Seq<char>) -> Seq<char> {
    if column == "category"@ {
        category_name(e.category)
    } else if column == "DOM"@ {
        support_name(e.presentation.dom)
    } else if column == "GPU"@ {
        support_name(e.presentation.gpu)
    } else if column == "across regions"@ {
        support_name(e.presentation.across_regions)
    } else if column == "properties"@ {
        capability_text(e.properties)
    } else if column == "actions"@ {
        capability_text(e.actions)
    } else if column == "theme"@ {
        capability_text(e.theme)
    } else if column == "input"@ {
        capability_text(e.input)
    } else if column == "accessibility"@ {
        capability_text(e.accessibility)
    } else {
        capability_text(e.environment)
    }
}

/// The cells of a markdown table row, each as ` cell |`.
pub open spec fn table_cells(cells: Seq<Seq<char>>) -> Seq<char>
    decreases cells.len(),
{
    if cells.len() == 0 {
        Seq::empty()
    } else {
        table_cells(cells.drop_last()) + " "@ + cells.last() + " |"@
    }
}

/// A markdown table row holding `cells`, left to right.
pub open spec fn table_line(cells: Seq<Seq<char>>) -> Seq<char> {
    "|"@ + table_cells(cells) + "\n"@
}

proof fn lemma_column_names_differ()
    ensures
        forall|i: int, j: int| 0 <= i < j < 10 ==> column_names()[i] != column_names()[j],
{
    reveal_strlit("category");
    reveal_strlit("DOM");
    reveal_strlit("GPU");
    reveal_strlit("across regions");
    reveal_strlit("properties");
    reveal_strlit("actions");
    reveal_strlit("theme");
    reveal_strlit("input");
    reveal_strlit("accessibility");
    reveal_strlit("environment");
    let c = column_names();
    assert(c[0][0] == 'c' && c[1][0] == 'D' && c[2][0] == 'G' && c[3][0] == 'a' && c[4][0] == 'p');
    assert(c[5][0] == 'a' && c[6][0] == 't' && c[7][0] == 'i' && c[8][0] == 'a' && c[9][0] == 'e');
    assert(c[3][1] == 'c' && c[5][1] == 'c' && c[8][1] == 'c');
    assert(c[3].len() == 14 && c[5].len() == 7 && c[8].len() == 13);
}

/// The catalogue's first line names its columns.
pub proof fn law_the_header_names_the_columns()
    ensures
        header_names() == table_line(column_names()),
{
    reveal_strlit("category");
    reveal_strlit("DOM");
    reveal_strlit("GPU");
    reveal_strlit("across regions");
    reveal_strlit("properties");
    reveal_strlit("actions");
    reveal_strlit("theme");
    reveal_strlit("input");
    reveal_strlit("accessibility");
    reveal_strlit("environment");
    reveal_strlit(" ");
    reveal_strlit(" |");
    reveal_strlit("|");
    reveal_strlit("\n");
    reveal_strlit("| category | DOM | GPU | across regions | properties | actions | theme | input | accessibility | environment |\n");
    reveal_with_fuel(table_cells, 11);
    assert(header_names() =~= table_line(column_names()));
}

spec fn row_cells(e: Entry) -> Seq<Seq<char>> {
    seq![
        category_name(e.category),
        support_name(e.presentation.dom),
        support_name(e.presentation.gpu),
        support_name(e.presentation.across_regions),
        capability_text(e.properties),
        capability_text(e.actions),
        capability_text(e.theme),
        capability_text(e.input),
        capability_text(e.accessibility),
        capability_text(e.environment),
    ]
}

proof fn lemma_columns_read_the_entry(e: Entry)
    ensures
        column_names().map_values(|c: Seq<char>| column_value(e, c)) == row_cells(e),
{
    lemma_column_names_differ();
    let cells = column_names().map_values(|c: Seq<char>| column_value(e, c));
    let want = row_cells(e);
    assert(cells[0] == want[0]);
    assert(cells[1] == want[1]);
    assert(cells[2] == want[2]);
    assert(cells[3] == want[3]);
    assert(cells[4] == want[4]);
    assert(cells[5] == want[5]);
    assert(cells[6] == want[6]);
    assert(cells[7] == want[7]);
    assert(cells[8] == want[8]);
    assert(cells[9] == want[9]);
    assert(cells =~= want);
}

proof fn lemma_table_cells_step(cells: Seq<Seq<char>>, k: int)
    requires
        0 <= k < cells.len(),
    ensures
        table_cells(cells.take(k + 1)) == table_cells(cells.take(k)) + " "@ + cells[k] + " |"@,
{
    assert(cells.take(k + 1).drop_last() =~= cells.take(k));
}

proof fn lemma_four_cells(c: Seq<Seq<char>>)
    requires
        c.len() == 10,
    ensures
        "| "@ + c[0] + " | "@ + c[1] + " | "@ + c[2] + " | "@ + c[3] + " |"@ == "|"@ + table_cells(c.take(4)),
{
    reveal_strlit(" ");
    reveal_strlit(" |");
    reveal_strlit("|");
    reveal_strlit("| ");
    reveal_strlit(" | ");
    assert(table_cells(c.take(0)) == Seq::<char>::empty());
    lemma_table_cells_step(c, 0);
    lemma_table_cells_step(c, 1);
    lemma_table_cells_step(c, 2);
    lemma_table_cells_step(c, 3);
    assert("| "@ + c[0] + " | "@ + c[1] + " | "@ + c[2] + " | "@ + c[3] + " |"@ =~= "|"@ + table_cells(c.take(4)));
}

proof fn lemma_ten_cells(c: Seq<Seq<char>>, head: Seq<char>)
    requires
        c.len() == 10,
        head == "|"@ + table_cells(c.take(4)),
    ensures
        head + (" "@ + c[4] + " |"@) + (" "@ + c[5] + " |"@) + (" "@ + c[6] + " |"@) + (" "@ + c[7] + " |"@)
            + (" "@ + c[8] + " |"@) + (" "@ + c[9] + " |"@) + "\n"@ == table_line(c),
{
    lemma_table_cells_step(c, 4);
    lemma_table_cells_step(c, 5);
    lemma_table_cells_step(c, 6);
    lemma_table_cells_step(c, 7);
    lemma_table_cells_step(c, 8);
    lemma_table_cells_step(c, 9);
    assert(c.take(10) =~= c);
    let t4 = table_cells(c.take(4));
    let p4 = " "@ + c[4] + " |"@;
    let p5 = " "@ + c[5] + " |"@;
    let p6 = " "@ + c[6] + " |"@;
    let p7 = " "@ + c[7] + " |"@;
    let p8 = " "@ + c[8] + " |"@;
    let p9 = " "@ + c[9] + " |"@;
    assert(table_cells(c.take(5)) =~= t4 + p4);
    assert(table_cells(c.take(6)) =~= t4 + p4 + p5);
    assert(table_cells(c.take(7)) =~= t4 + p4 + p5 + p6);
    assert(table_cells(c.take(8)) =~= t4 + p4 + p5 + p6 + p7);
    assert(table_cells(c.take(9)) =~= t4 + p4 + p5 + p6 + p7 + p8);
    assert(table_cells(c) =~= t4 + p4 + p5 + p6 + p7 + p8 + p9);
    assert(head + p4 + p5 + p6 + p7 + p8 + p9 + "\n"@ =~= table_line(c));
}

proof fn lemma_capability_cell(c: Capability)
    ensures
        capability_cell(c) == " "@ + capability_text(c) + " |"@,
{
    assert(capability_cell(c) =~= " "@ + capability_text(c) + " |"@);
}

proof fn lemma_row_is_a_table_line(e: Entry)
    ensures
        row_text(e) == table_line(row_cells(e)),
{
    let w = row_cells(e);
    lemma_four_cells(w);
    lemma_capability_cell(e.properties);
    lemma_capability_cell(e.actions);
    lemma_capability_cell(e.theme);
    lemma_capability_cell(e.input);
    lemma_capability_cell(e.accessibility);
    lemma_capability_cell(e.environment);
    lemma_ten_cells(w, row_head(e));
}

/// Every cell of a row sits under its column: the row of any entry holds,
/// left to right, what that entry says in the column the header names there
/// - its category, where it is drawn in the DOM, on the GPU and across
/// regions, and each of its six capabilities.
pub proof fn law_each_cell_sits_under_its_column(e: Entry)
    ensures
        row_text(e) == table_line(column_names().map_values(|c: Seq<char>| column_value(e, c))),
{
    lemma_columns_read_the_entry(e);
    lemma_row_is_a_table_line(e);
}

proof fn lemma_positions(i: int)
    requires
        0 <= i < 18,
    ensures
        category_index(category_at(i)) == i,
        catalog_rows()[i].category == category_at(i),
{
}

/// Every one of the eighteen categories appears in the catalogue exactly
/// once.
pub proof fn law_every_category_appears_exactly_once(c: Category)
    ensures
        0 <= category_index(c) < 18,
        catalog_rows()[category_index(c)].category == c,
        forall|i: int| 0 <= i < 18 && #[trigger] catalog_rows()[i].category == c ==> i == category_index(c),
{
    assert forall|i: int| 0 <= i < 18 && #[trigger] catalog_rows()[i].category == c implies i == category_index(c) by {
        lemma_positions(i);
    }
}

/// The nine categories a release does not ship say so in every column, with
/// the one shared reason.
pub proof fn law_what_is_not_shipped_says_so_in_every_column(i: int)
    requires
        0 <= i < 18,
        !is_shipped(catalog_rows()[i]),
    ensures
        catalog_rows()[i] == absent_row(catalog_rows()[i].category),
{
}

/// A shipped category is reachable from the DOM, which is where the
/// accessible entry for a GPU control lives.
pub proof fn law_what_is_shipped_is_reachable_from_the_dom(i: int)
    requires
        0 <= i < 18,
        is_shipped(catalog_rows()[i]),
    ensures
        catalog_rows()[i].presentation.dom != Support::No,
        catalog_rows()[i].accessibility.support != Support::No,
{
}

/// No cell is blank: every category has a name and every answer carries its
/// reason.
pub proof fn law_no_cell_is_blank(i: int)
    requires
        0 <= i < 18,
    ensures
        category_name(catalog_rows()[i].category).len() > 0,
        forall|k: int| 0 <= k < 6 ==> (#[trigger] classes(catalog_rows()[i])[k]).1.note@.len() > 0,
{
        reveal_strlit("button");
        reveal_strlit("label");
        reveal_strlit("link");
        reveal_strlit("icon");
        reveal_strlit("text field");
        reveal_strlit("text area");
        reveal_strlit("checkbox");
        reveal_strlit("radio");
        reveal_strlit("switch");
        reveal_strlit("select");
        reveal_strlit("slider");
        reveal_strlit("progress");
        reveal_strlit("loading");
        reveal_strlit("tooltip");
        reveal_strlit("menu");
        reveal_strlit("dialog");
        reveal_strlit("tabs");
        reveal_strlit("scroll area");
        reveal_strlit("a label has none; clicking one focuses its control");
        reveal_strlit("a region can be covered by one, but the view itself is DOM");
        reveal_strlit("anchor, items, open state owned by the application");
        reveal_strlit("anchors to a rectangle inside a GPU region within one CSS pixel, but does not flip or clamp to the viewport");
        reveal_strlit("change; both halves call one application action");
        reveal_strlit("checked, disabled, read-only; read-only reverts the browser's own toggle");
        reveal_strlit("click; the DOM and the GPU button call the same application action");
        reveal_strlit("clicks do not reach what a modal covers, region included");
        reveal_strlit("close; Escape closes the top layer only");
        reveal_strlit("input and commit on leaving; Enter is a newline, not a commit");
        reveal_strlit("input and commit; the application owns the value");
        reveal_strlit("item activation and close; Escape closes the top layer only");
        reveal_strlit("label, disabled; a disabled button emits nothing");
        reveal_strlit("macOS Chrome, strict CSP, WebGL2 region");
        reveal_strlit("macOS Chrome, strict CSP, WebGL2 region; no inline script or style");
        reveal_strlit("macOS Chrome, strict CSP; GPU text needs the region's font");
        reveal_strlit("menu/menuitem roles; focus returns to the control it was opened from");
        reveal_strlit("modal, anchor, open state owned by the application");
        reveal_strlit("names the control it wraps; GPU text is decoration and stays out of the tree");
        reveal_strlit("native button in the DOM; the GPU button has a DOM control with the same name and action");
        reveal_strlit("native checkbox in the DOM; the GPU one has a DOM control with the same name, state and action");
        reveal_strlit("native input with a label; five keyboard journeys");
        reveal_strlit("native range in the DOM; the GPU one has a DOM control with the same name and value");
        reveal_strlit("native textarea with a label");
        reveal_strlit("not in P1; the eighteen-category catalogue is P2 M2");
        reveal_strlit("one application-defined retry on the error state");
        reveal_strlit("only this scope is made inert; a host page outside it is not");
        reveal_strlit("pointer and Enter/Space, from either half");
        reveal_strlit("pointer and Space, from either half");
        reveal_strlit("pointer and keyboard; the layer owns Escape while it is open");
        reveal_strlit("pointer drag and arrow keys, from either half");
        reveal_strlit("scope tokens: background, border, radius");
        reveal_strlit("scope tokens: foreground, muted");
        reveal_strlit("scope tokens: input, border, ring, radius");
        reveal_strlit("scope tokens: muted, destructive");
        reveal_strlit("scope tokens: primary, border, ring");
        reveal_strlit("scope tokens: primary, foreground, radius");
        reveal_strlit("selectable text in the DOM");
        reveal_strlit("text; optional association with a control");
        reveal_strlit("the GPU half displays the value and hands editing to a native control over its rectangle; it is not a GPU text editor");
        reveal_strlit("the GPU half shows the first line only; editing is the native control's");
        reveal_strlit("the browser's own control, so IME composition is the platform's");
        reveal_strlit("the browser's own control; several lines");
        reveal_strlit("the four states of `Load`: loading, empty, ready, error; empty is an answer, not a missing one");
        reveal_strlit("the retry control is an ordinary button");
        reveal_strlit("the scope's own content is inert while a modal is open; focus returns on close");
        reveal_strlit("the state is a live status; the error is an alert with the retry beside it");
        reveal_strlit("value, disabled, read-only; a refused value is shown as the application's, not the keystrokes'");
        reveal_strlit("value, min, max, step, disabled, read-only; the value is clamped and snapped before the application sees it");
        reveal_strlit("value, rows, disabled, read-only");
    let e = catalog_rows()[i];
    assert(classes(e)[0].1 == e.properties);
    assert(classes(e)[1].1 == e.actions);
    assert(classes(e)[2].1 == e.theme);
    assert(classes(e)[3].1 == e.input);
    assert(classes(e)[4].1 == e.accessibility);
    assert(classes(e)[5].1 == e.environment);
}

} // verus!
