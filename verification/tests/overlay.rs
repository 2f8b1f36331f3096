use rustify_ui::overlay::{
    focus_after_close, holds_focus, keep_tab_inside, FocusReturn, tab_index, tab_order, wrap_tab, Candidate, Focused, LayerId, Layers,
    Place, Routed, TabFocus, TabPress,
};
use rustify_ui::shortcut::Modifiers;
use TabFocus::{After, On};

#[test]
fn tab_wraps_only_at_the_two_ends_of_a_modal_layer() {
    let table = [
        (3, On(0), false, None),
        (3, On(1), false, None),
        (3, On(2), false, Some(0)),
        (3, On(0), true, Some(2)),
        (3, On(1), true, None),
        (3, On(2), true, None),
        (1, On(0), false, Some(0)),
        (1, On(0), true, Some(0)),
        (3, After(3), false, Some(0)),
        (3, After(1), false, None),
        (3, After(0), true, Some(2)),
        (3, After(2), true, None),
        (0, After(0), false, None),
        (0, After(0), true, None),
    ];
    for (stops, focus, backwards, sent) in table {
        assert_eq!(
            wrap_tab(stops, focus, backwards),
            sent,
            "{stops} stops, {focus:?}, backwards: {backwards}"
        );
    }
}

#[test]
fn layers_are_named_in_order_and_never_reuse_a_name() {
    let mut layers = Layers::new();
    let menu = layers.push(false);
    let dialog = layers.push(true);
    assert_eq!(menu, LayerId(1));
    assert_eq!(dialog, LayerId(2));
    assert_eq!(layers.top(), Some(dialog));
    layers.remove(dialog);
    assert_eq!(layers.top(), Some(menu));
    let next = layers.push(false);
    assert_eq!(next, LayerId(3));
    assert_eq!(layers.depth(), 2);
}

#[test]
fn everything_under_the_topmost_modal_layer_is_inert() {
    let mut layers = Layers::new();
    assert!(!layers.content_inert());
    layers.push(false);
    assert!(!layers.content_inert());
    layers.push(true);
    layers.push(false);
    assert!(layers.content_inert());
    assert_eq!(layers.inert_layers(), vec![true, false, false]);
    let top = layers.push(true);
    assert_eq!(layers.inert_layers(), vec![true, true, true, false]);
    layers.remove(top);
    assert_eq!(layers.inert_layers(), vec![true, false, false]);
}

#[test]
fn escape_ends_an_edit_before_it_closes_a_layer() {
    let mut layers = Layers::new();
    assert_eq!(layers.route("Escape", None), Routed::Ignored);
    layers.push(true);
    assert_eq!(layers.route("Escape", None), Routed::CloseTop);
    assert_eq!(layers.route("Enter", None), Routed::Ignored);
    assert_eq!(layers.route("Escape", Some(false)), Routed::CancelEdit);
    assert_eq!(layers.route("Escape", Some(true)), Routed::Composing);
    assert_eq!(layers.route("Enter", Some(false)), Routed::Ignored);
}

#[test]
fn a_tabindex_is_read_as_rust_reads_a_whole_number() {
    assert_eq!(tab_index(None), 0);
    assert_eq!(tab_index(Some("3")), 3);
    assert_eq!(tab_index(Some("  -1 ")), -1);
    assert_eq!(tab_index(Some("+7")), 7);
    assert_eq!(tab_index(Some("2147483647")), 2147483647);
    assert_eq!(tab_index(Some("-2147483648")), -2147483648);
    assert_eq!(tab_index(Some("2147483648")), 0);
    assert_eq!(tab_index(Some("99999999999999999999")), 0);
    assert_eq!(tab_index(Some("1.5")), 0);
    assert_eq!(tab_index(Some("-")), 0);
    assert_eq!(tab_index(Some("")), 0);
    assert_eq!(tab_index(Some("\u{a0}4\n")), 4);
}

fn stop(index: i32) -> Candidate {
    Candidate {
        index,
        reachable: true,
        radio: None,
    }
}

fn radio(name: &str, checked: bool) -> Candidate {
    Candidate {
        index: 0,
        reachable: true,
        radio: Some((name.to_string(), checked)),
    }
}

#[test]
fn positive_indices_come_first_and_equal_ones_keep_document_order() {
    let candidates = [stop(0), stop(2), stop(1), stop(0), stop(2), stop(-1)];
    assert_eq!(tab_order(&candidates), vec![2, 1, 4, 0, 3]);
}

#[test]
fn what_cannot_be_reached_is_not_a_stop() {
    let mut hidden = stop(0);
    hidden.reachable = false;
    let candidates = [hidden, stop(0), stop(-3)];
    assert_eq!(tab_order(&candidates), vec![1]);
}

#[test]
fn a_radio_group_is_one_stop_the_checked_one_if_any() {
    let candidates = [
        radio("size", false),
        radio("size", true),
        radio("size", false),
        radio("tone", false),
        radio("tone", false),
        radio("", false),
        radio("", false),
    ];
    assert_eq!(tab_order(&candidates), vec![1, 3, 5, 6]);
}

#[test]
fn an_unreachable_checked_radio_does_not_hide_its_group() {
    let mut checked = radio("size", true);
    checked.reachable = false;
    let candidates = [checked, radio("size", false), radio("size", false)];
    assert_eq!(tab_order(&candidates), vec![1]);
}

fn press(key: &str, shift: bool) -> TabPress<'_> {
    TabPress {
        key,
        prevented: false,
        composing: false,
        modifiers: Modifiers {
            shift,
            ..Modifiers::default()
        },
    }
}

fn places(focused: Option<usize>, before: usize, len: usize) -> Vec<Place> {
    (0..len)
        .map(|k| Place {
            focused: focused == Some(k),
            before_focus: k < before,
        })
        .collect()
}

#[test]
fn tab_past_the_last_stop_goes_back_to_the_first() {
    assert_eq!(keep_tab_inside(&press("Tab", false), &places(Some(2), 2, 3)), Some(0));
    assert_eq!(keep_tab_inside(&press("Tab", false), &places(Some(1), 1, 3)), None);
    assert_eq!(keep_tab_inside(&press("Tab", true), &places(Some(0), 0, 3)), Some(2));
    assert_eq!(keep_tab_inside(&press("Tab", false), &places(None, 3, 3)), Some(0));
    assert_eq!(keep_tab_inside(&press("Tab", true), &places(None, 0, 3)), Some(2));
    assert_eq!(keep_tab_inside(&press("Tab", false), &places(None, 1, 3)), None);
}

#[test]
fn only_a_plain_tab_is_kept_inside() {
    let stops = places(Some(2), 2, 3);
    assert_eq!(keep_tab_inside(&press("Enter", false), &stops), None);
    let mut composing = press("Tab", false);
    composing.composing = true;
    assert_eq!(keep_tab_inside(&composing, &stops), None);
    let mut prevented = press("Tab", false);
    prevented.prevented = true;
    assert_eq!(keep_tab_inside(&prevented, &stops), None);
    let mut ctrl = press("Tab", false);
    ctrl.modifiers.ctrl = true;
    assert_eq!(keep_tab_inside(&ctrl, &stops), None);
    assert_eq!(keep_tab_inside(&press("Tab", false), &[]), None);
}

#[test]
fn the_keyboard_is_held_inside_the_layer_or_nowhere_in_particular() {
    assert!(holds_focus(Focused::Nowhere, None));
    assert!(holds_focus(Focused::Body, Some(false)));
    assert!(holds_focus(Focused::Element, Some(true)));
    assert!(!holds_focus(Focused::Element, Some(false)));
    assert!(!holds_focus(Focused::Element, None));
}

#[test]
fn only_escape_and_enter_are_routed_above_the_application() {
    let mut layers = Layers::new();
    layers.push(true);
    assert_eq!(layers.route("a", Some(true)), Routed::Ignored);
    assert_eq!(layers.route("Enter", Some(true)), Routed::Composing);
}

#[test]
fn a_closing_layer_hands_the_keyboard_back_only_if_it_still_holds_it() {
    assert_eq!(
        focus_after_close(Focused::Element, Some(false), Some(true)),
        FocusReturn::Leave
    );
    assert_eq!(
        focus_after_close(Focused::Element, Some(true), Some(true)),
        FocusReturn::Trigger
    );
    assert_eq!(
        focus_after_close(Focused::Body, None, Some(false)),
        FocusReturn::Container
    );
    assert_eq!(
        focus_after_close(Focused::Nowhere, None, None),
        FocusReturn::Container
    );
}
