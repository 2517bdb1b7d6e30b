use evmqtt_rs::slug::{key_slug, slugify};

#[test]
fn lowercases_and_hyphenates_spaces() {
    assert_eq!(slugify("USB Keyboard"), "usb-keyboard");
}

#[test]
fn collapses_repeated_separators() {
    assert_eq!(slugify("Logitech  G502__HERO"), "logitech-g502-hero");
}

#[test]
fn strips_unicode_and_punctuation() {
    assert_eq!(
        slugify("Reichweite® (USB) — Bridge"),
        "reichweite-usb-bridge"
    );
}

#[test]
fn trims_leading_and_trailing_separators() {
    assert_eq!(slugify("__bridge__"), "bridge");
    assert_eq!(slugify("-"), "unknown");
}

#[test]
fn empty_yields_unknown() {
    assert_eq!(slugify(""), "unknown");
}

#[test]
fn key_slug_strips_key_prefix() {
    assert_eq!(key_slug("KEY_VOLUMEUP"), "volumeup");
    assert_eq!(key_slug("KEY_LEFTSHIFT"), "leftshift");
}

#[test]
fn key_slug_strips_btn_prefix() {
    assert_eq!(key_slug("BTN_LEFT"), "left");
}

#[test]
fn key_slug_keeps_unknown_format() {
    assert_eq!(key_slug("UNKNOWN_42"), "unknown-42");
}

#[test]
fn slugs_are_fixed_points() {
    for text in ["USB Keyboard", "__a--B 9", "€", "unknown"] {
        let once = slugify(text);
        assert_eq!(slugify(&once), once);
    }
}

#[test]
fn slugs_hold_no_topic_characters() {
    let slug = slugify("a/b+c#d_e f");
    assert_eq!(slug, "a-b-c-d-e-f");
}

#[test]
fn only_one_key_prefix_is_stripped() {
    assert_eq!(key_slug("KEY_KEY_A"), "key-a");
    assert_eq!(key_slug("KEY_"), "unknown");
}
