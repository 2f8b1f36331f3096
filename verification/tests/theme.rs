use rustify_ui::theme::{hex, motion, patch_properties};

#[test]
fn a_colour_is_written_the_way_both_halves_read_it() {
    assert_eq!(hex(0x2e90fa), "#2e90fa");
    assert_eq!(hex(0x000000), "#000000");
    assert_eq!(hex(0xffffff), "#ffffff");
}

#[test]
fn a_small_colour_is_padded_to_six_digits() {
    assert_eq!(hex(0x00000a), "#00000a");
    assert_eq!(hex(0x0abc00), "#0abc00");
    assert_eq!(hex(0x123456).len(), 7);
}

#[test]
fn less_movement_is_no_movement_rather_than_no_result() {
    assert_eq!(motion(true), "0ms");
    assert_eq!(motion(false), "150ms");
}

#[test]
fn a_patch_names_seven_properties_in_the_order_it_writes_them() {
    assert_eq!(
        patch_properties(),
        [
            "--background",
            "--foreground",
            "--primary",
            "--accent",
            "--font-size",
            "--spacing",
            "--radius"
        ]
    );
}
