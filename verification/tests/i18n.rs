use rustify_ui::i18n::{Direction, Locale, Message};
use std::collections::HashSet;

#[test]
fn every_message_exists_in_every_language_and_is_its_own() {
    for locale in Locale::all() {
        let texts: Vec<&str> = Message::all()
            .into_iter()
            .map(|message| message.text(locale))
            .collect();
        assert!(
            texts.iter().all(|text| !text.is_empty()),
            "{} has an empty message",
            locale.tag()
        );
        let unique: HashSet<&&str> = texts.iter().collect();
        assert_eq!(unique.len(), texts.len(), "{} repeats itself", locale.tag());
    }
}

#[test]
fn no_message_was_left_in_the_other_language() {
    for message in Message::all() {
        assert_ne!(
            message.text(Locale::English),
            message.text(Locale::Chinese),
            "{} is the same in both languages",
            message.key()
        );
    }
}

#[test]
fn every_message_has_a_name_of_its_own() {
    let keys: HashSet<&str> = Message::all().into_iter().map(Message::key).collect();
    assert_eq!(keys.len(), Message::all().len());
}

#[test]
fn a_language_is_matched_on_its_language_and_not_its_punctuation() {
    assert_eq!(Locale::from_tag("zh-CN"), Some(Locale::Chinese));
    assert_eq!(Locale::from_tag("zh"), Some(Locale::Chinese));
    assert_eq!(Locale::from_tag("zh-Hans-CN"), Some(Locale::Chinese));
    assert_eq!(Locale::from_tag("zh_TW"), Some(Locale::Chinese));
    assert_eq!(Locale::from_tag("EN-GB"), Some(Locale::English));
    assert_eq!(Locale::from_tag("fr-FR"), None);
    assert_eq!(Locale::from_tag(""), None);
}

#[test]
fn the_first_language_we_have_wins_and_english_is_the_fallback() {
    assert_eq!(
        Locale::best_of(&["fr-FR", "zh-CN", "en"]),
        Locale::Chinese,
        "preference order is the browser's, not ours"
    );
    assert_eq!(Locale::best_of(&["de", "it"]), Locale::English);
    assert_eq!(Locale::best_of(&[]), Locale::English);
}

#[test]
fn a_language_says_its_own_name_in_itself() {
    assert_eq!(Locale::Chinese.endonym(), "中文");
    assert_eq!(Locale::English.endonym(), "English");
    assert_eq!(Locale::Chinese.tag(), "zh-CN");
    assert_eq!(Locale::English.direction(), Direction::LeftToRight);
    assert_eq!(Direction::RightToLeft.attribute(), "rtl");
}

#[test]
fn a_tag_is_read_without_regard_to_case_and_only_up_to_its_first_subtag() {
    assert_eq!(Locale::from_tag("ZH"), Some(Locale::Chinese));
    assert_eq!(Locale::from_tag("en"), Some(Locale::English));
    assert_eq!(Locale::from_tag("eng"), None);
    assert_eq!(Locale::from_tag("-zh"), None);
    assert_eq!(Locale::best_of(&["", "EN-US", "zh"]), Locale::English);
    assert_eq!(Locale::default(), Locale::English);
    assert_eq!(Direction::LeftToRight.attribute(), "ltr");
}
