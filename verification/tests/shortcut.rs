use rustify_ui::shortcut::{Keystroke, Modifiers, Platform, Shortcut, ShortcutError};

const NONE: Modifiers = Modifiers {
    ctrl: false,
    alt: false,
    shift: false,
    meta: false,
};
const CTRL: Modifiers = Modifiers { ctrl: true, ..NONE };
const META: Modifiers = Modifiers { meta: true, ..NONE };
const SHIFT: Modifiers = Modifiers {
    shift: true,
    ..NONE
};
const ALT: Modifiers = Modifiers { alt: true, ..NONE };
const CTRL_SHIFT: Modifiers = Modifiers {
    ctrl: true,
    shift: true,
    ..NONE
};
const META_SHIFT: Modifiers = Modifiers {
    meta: true,
    shift: true,
    ..NONE
};
const META_ALT: Modifiers = Modifiers {
    meta: true,
    alt: true,
    ..NONE
};

fn parse(text: &str, platform: Platform) -> Shortcut {
    Shortcut::parse_for(text, platform)
        .unwrap_or_else(|error| panic!("{text:?} should parse: {}", error.message()))
}

#[test]
fn mod_is_the_command_key_of_the_platform_it_was_parsed_for() {
    assert_eq!(
        parse("Mod+K", Platform::Mac),
        parse("Meta+K", Platform::Mac)
    );
    assert_eq!(
        parse("Mod+K", Platform::Other),
        parse("Ctrl+K", Platform::Other)
    );
    assert_ne!(
        parse("Mod+K", Platform::Mac),
        parse("Mod+K", Platform::Other)
    );
    assert_eq!(
        parse("Ctrl+K", Platform::Mac),
        parse("Ctrl+K", Platform::Other)
    );
}

#[test]
fn names_are_read_without_regard_to_case_or_which_alias_was_used() {
    let same = [
        ("Mod+Shift+K", "mod+shift+k"),
        ("Ctrl+K", "Control+K"),
        ("Ctrl+K", "CTRL+k"),
        ("Meta+K", "Cmd+K"),
        ("Meta+K", "Command+K"),
        ("Alt+K", "Option+K"),
        ("Alt+K", "opt+K"),
        ("Shift+Ctrl+K", "Ctrl+Shift+K"),
        (" Ctrl + K ", "Ctrl+K"),
        ("Escape", "Esc"),
        ("Escape", "escape"),
        ("Enter", "Return"),
        ("Delete", "Del"),
        ("ArrowUp", "Up"),
        ("ArrowLeft", "left"),
        ("Space", "space"),
        ("Plus", "+"),
        ("Ctrl+Plus", "Ctrl++"),
        ("f2", "F2"),
    ];
    for (left, right) in same {
        assert_eq!(
            parse(left, Platform::Other),
            parse(right, Platform::Other),
            "{left:?} and {right:?}"
        );
    }
}

#[test]
fn text_that_is_not_a_shortcut_says_why() {
    let refused = [
        ("", ShortcutError::Empty),
        ("   ", ShortcutError::Empty),
        ("Ctrl+", ShortcutError::MissingKey),
        ("Shift", ShortcutError::MissingKey),
        ("Mod+Shift", ShortcutError::MissingKey),
        ("Hyper+K", ShortcutError::UnknownModifier("Hyper".into())),
        ("K+L", ShortcutError::UnknownModifier("K".into())),
        ("Ctrl++K", ShortcutError::UnknownModifier(String::new())),
        (
            "Shift+shift+K",
            ShortcutError::RepeatedModifier("shift".into()),
        ),
        ("Mod+Mod+K", ShortcutError::RepeatedModifier("Mod".into())),
        ("Ctrl+Foo", ShortcutError::UnknownKey("Foo".into())),
        ("F25", ShortcutError::UnknownKey("F25".into())),
        ("F0", ShortcutError::UnknownKey("F0".into())),
    ];
    for (text, error) in refused {
        assert_eq!(
            Shortcut::parse_for(text, Platform::Other),
            Err(error),
            "{text:?}"
        );
    }
}

#[test]
fn a_shortcut_matches_the_keys_the_browser_reports_for_it() {
    let table: &[(&str, Platform, &str, &str, Modifiers, bool)] = &[
        ("Mod+K", Platform::Other, "k", "KeyK", CTRL, true),
        ("Mod+K", Platform::Other, "k", "KeyK", META, false),
        ("Mod+K", Platform::Mac, "k", "KeyK", META, true),
        ("Mod+K", Platform::Mac, "k", "KeyK", CTRL, false),
        ("Mod+K", Platform::Other, "K", "KeyK", CTRL_SHIFT, false),
        (
            "Mod+Shift+K",
            Platform::Other,
            "K",
            "KeyK",
            CTRL_SHIFT,
            true,
        ),
        ("Mod+Shift+K", Platform::Mac, "k", "KeyK", META_SHIFT, true),
        ("Mod+Shift+K", Platform::Other, "k", "KeyK", CTRL, false),
        ("K", Platform::Other, "k", "KeyK", NONE, true),
        ("K", Platform::Other, "k", "KeyK", CTRL, false),
        ("K", Platform::Other, "k", "KeyK", ALT, false),
        ("Mod+A", Platform::Other, "a", "KeyQ", CTRL, true),
        ("Mod+Q", Platform::Other, "a", "KeyQ", CTRL, false),
        ("Mod+K", Platform::Other, "л", "KeyK", CTRL, true),
        ("Mod+Alt+K", Platform::Mac, "˚", "KeyK", META_ALT, true),
        ("Mod+Alt+J", Platform::Mac, "˚", "KeyK", META_ALT, false),
        ("?", Platform::Other, "?", "Slash", SHIFT, true),
        ("?", Platform::Other, "?", "Minus", NONE, true),
        ("Mod+1", Platform::Other, "1", "Digit1", CTRL_SHIFT, true),
        ("Mod+1", Platform::Other, "&", "Digit1", CTRL, true),
        ("Shift+1", Platform::Other, "!", "Digit1", SHIFT, true),
        ("1", Platform::Other, "!", "Digit1", SHIFT, false),
        ("1", Platform::Other, "1", "Digit1", NONE, true),
        ("Escape", Platform::Other, "Escape", "Escape", NONE, true),
        ("Escape", Platform::Other, "Escape", "Escape", SHIFT, false),
        ("Space", Platform::Other, " ", "Space", NONE, true),
        ("Space", Platform::Other, " ", "Space", SHIFT, false),
        (
            "Shift+ArrowUp",
            Platform::Other,
            "ArrowUp",
            "ArrowUp",
            SHIFT,
            true,
        ),
        ("F2", Platform::Other, "F2", "F2", NONE, true),
        ("Ctrl+Plus", Platform::Other, "+", "Equal", CTRL_SHIFT, true),
        (
            "Delete",
            Platform::Other,
            "Backspace",
            "Backspace",
            NONE,
            false,
        ),
    ];
    for &(text, platform, key, code, modifiers, expected) in table {
        let stroke = Keystroke {
            key,
            code,
            modifiers,
        };
        assert_eq!(
            parse(text, platform).matches_keystroke(&stroke),
            expected,
            "{text:?} on {platform:?} against {stroke:?}"
        );
    }
}

#[test]
fn a_shortcut_prints_in_aria_form_and_reads_back_the_same_anywhere() {
    let printed = [
        ("Mod+Shift+K", Platform::Mac, "Shift+Meta+K"),
        ("Mod+Shift+K", Platform::Other, "Control+Shift+K"),
        ("alt+space", Platform::Other, "Alt+Space"),
        ("Ctrl++", Platform::Other, "Control+Plus"),
        ("esc", Platform::Other, "Escape"),
        ("?", Platform::Other, "?"),
    ];
    for (text, platform, aria) in printed {
        let shortcut = parse(text, platform);
        assert_eq!(shortcut.aria(), aria);
        for elsewhere in [Platform::Mac, Platform::Other] {
            assert_eq!(
                parse(aria, elsewhere),
                shortcut,
                "{aria:?} on {elsewhere:?}"
            );
        }
    }
}

#[test]
fn outside_a_browser_the_platform_is_the_ordinary_one() {
    assert_eq!(Platform::current(), Platform::Other);
    assert_eq!(
        Shortcut::parse("Mod+K"),
        Shortcut::parse_for("Mod+K", Platform::Other)
    );
}

#[test]
fn a_navigator_that_names_a_mac_or_an_ipad_puts_the_command_key_on_meta() {
    assert_eq!(Platform::from_navigator("MacIntel"), Platform::Mac);
    assert_eq!(Platform::from_navigator("iPad"), Platform::Mac);
    assert_eq!(Platform::from_navigator("Win32"), Platform::Other);
    assert_eq!(Platform::from_navigator("Linux x86_64"), Platform::Other);
    assert_eq!(Platform::from_navigator(""), Platform::Other);
}

#[test]
fn every_parse_error_says_what_was_wrong_in_words() {
    assert_eq!(ShortcutError::Empty.message(), "a shortcut needs a key");
    assert_eq!(
        ShortcutError::MissingKey.message(),
        "a shortcut needs a key after its modifiers"
    );
    assert_eq!(
        ShortcutError::UnknownModifier("Hyper".into()).message(),
        "`Hyper` is not a modifier"
    );
    assert_eq!(
        ShortcutError::RepeatedModifier("Mod".into()).message(),
        "`Mod` is named twice"
    );
    assert_eq!(
        ShortcutError::UnknownKey("Foo".into()).message(),
        "`Foo` is not a key"
    );
}

#[test]
fn a_parsed_shortcut_keeps_its_key_in_lower_case_and_its_modifiers() {
    let shortcut = parse("Ctrl+Shift+Q", Platform::Other);
    assert_eq!(shortcut.key(), "q");
    assert_eq!(shortcut.modifiers(), CTRL_SHIFT);
    let named = parse("alt+pageup", Platform::Mac);
    assert_eq!(named.key(), "PageUp");
    assert_eq!(named.modifiers(), ALT);
}

#[test]
fn a_letter_shortcut_answers_to_either_case_of_its_letter() {
    let ctrl = Modifiers {
        ctrl: true,
        ..NONE
    };
    let shortcut = parse("Mod+K", Platform::Other);
    for key in ["k", "K"] {
        let stroke = Keystroke {
            key,
            code: "KeyK",
            modifiers: ctrl,
        };
        assert!(shortcut.matches_keystroke(&stroke), "{key:?}");
    }
    let other = Keystroke {
        key: "j",
        code: "KeyJ",
        modifiers: ctrl,
    };
    assert!(!shortcut.matches_keystroke(&other));
}
