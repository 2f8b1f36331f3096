use rustify_ui::gpu::{
    Glyph, RustifyButton, RustifyCheckBox, RustifyDropDown, RustifyIcon, RustifyRadio,
    RustifySpinner, RustifyTabBar, RustifyToggle,
};

#[test]
fn a_button_clicks_only_when_a_press_ends_over_it() {
    let mut button = RustifyButton::new();
    assert!(button.set_state("Save", false));
    assert!(!button.set_state("Save", false));
    assert!(button.finger_down(true));
    button.finger_up(true, true);
    assert_eq!(button.take_click(), Some(()));
    assert_eq!(button.take_click(), None);

    assert!(button.finger_down(true));
    button.finger_up(false, true);
    assert_eq!(button.take_click(), None);
}

#[test]
fn a_disabled_button_is_never_pressed_and_never_clicks() {
    let mut button = RustifyButton::new();
    button.set_state("Save", true);
    assert!(!button.finger_down(true));
    button.finger_up(true, true);
    assert_eq!(button.take_click(), None);
}

#[test]
fn a_button_face_follows_the_pointer_and_the_disabled_state() {
    let mut button = RustifyButton::new();
    assert_eq!(button.face(), None);
    assert!(button.set_palette(1, 2, 3, 4));
    assert!(!button.set_palette(1, 2, 3, 4));
    assert_eq!(button.face(), Some(1));
    button.hover(true);
    assert_eq!(button.face(), Some(2));
    button.set_state("Save", true);
    assert_eq!(button.face(), Some(3));
}

#[test]
fn a_checkbox_asks_for_the_other_state_unless_it_is_closed() {
    let mut checkbox = RustifyCheckBox::new();
    checkbox.set_state(true, false, false);
    checkbox.finger_up(true, true);
    assert_eq!(checkbox.take_change(), Some(false));
    checkbox.set_state(true, false, true);
    checkbox.finger_up(true, true);
    assert_eq!(checkbox.take_change(), None);
    checkbox.set_state(false, true, false);
    checkbox.finger_up(true, true);
    assert_eq!(checkbox.take_change(), None);
    assert!(checkbox.set_palette(1, 2, 3));
    assert!(!checkbox.set_palette(1, 2, 3));
}

#[test]
fn a_toggle_asks_for_the_other_state_and_a_secondary_press_asks_nothing() {
    let mut toggle = RustifyToggle::new();
    toggle.finger_up(true, false);
    assert_eq!(toggle.take_change(), None);
    toggle.finger_up(true, true);
    assert_eq!(toggle.take_change(), Some(true));
    assert!(toggle.set_state(true, false, false));
    assert!(!toggle.set_state(true, false, false));
}

#[test]
fn choosing_the_radio_that_is_chosen_is_not_a_change() {
    let mut radio = RustifyRadio::new();
    radio.finger_up(true, true);
    assert_eq!(radio.take_change(), Some(()));
    radio.set_state(true, false, false);
    radio.finger_up(true, true);
    assert_eq!(radio.take_change(), None);
}

#[test]
fn a_read_only_drop_down_still_opens_and_a_disabled_one_does_not() {
    let mut drop_down = RustifyDropDown::new();
    drop_down.set_state("Pick", false, true);
    drop_down.finger_up(true, true);
    assert_eq!(drop_down.take_open(), Some(()));
    drop_down.set_state("Pick", true, false);
    drop_down.finger_up(true, true);
    assert_eq!(drop_down.take_open(), None);
    assert!(drop_down.set_palette(1, 2, 3, 4));
}

#[test]
fn a_tab_bar_asks_for_another_tab_and_not_for_the_active_one() {
    let mut tabs = RustifyTabBar::new();
    let names = vec!["One".to_string(), "Two".to_string(), "Three".to_string()];
    assert!(tabs.set_state(&names, 0, false));
    assert!(!tabs.set_state(&names, 0, false));
    tabs.finger_up(true, true, Some(0));
    assert_eq!(tabs.take_change(), None);
    tabs.finger_up(true, true, Some(2));
    assert_eq!(tabs.take_change(), Some(2));
    tabs.finger_up(true, true, None);
    assert_eq!(tabs.take_change(), None);
    assert!(tabs.set_state(&names[..2], 0, false));
    assert!(tabs.set_palette(1, 2, 3));
}

#[test]
fn an_icon_and_a_spinner_redraw_only_when_something_changed() {
    let mut icon = RustifyIcon::new();
    assert!(!icon.set_glyph(Glyph::Check));
    assert!(icon.set_glyph(Glyph::Close));
    assert!(icon.set_ink(7));
    assert!(!icon.set_ink(7));
    assert_eq!(Glyph::ChevronDown.name(), "chevron-down");
    assert_eq!(Glyph::default(), Glyph::Check);

    let mut spinner = RustifySpinner::new();
    assert!(spinner.set_state(true, false));
    assert!(spinner.turning());
    assert!(spinner.set_state(true, true));
    assert!(!spinner.turning());
    assert!(spinner.set_ink(1));
}
