use evmqtt_rs::topics::{
    action_topic, availability_topic, device_discovery_topic, device_enabled_topic,
    device_enabled_wildcard, device_identifier, device_info_topic, device_info_wildcard,
    parse_enabled_topic, Action,
};

#[test]
fn action_topic_shape() {
    assert_eq!(action_topic("evmqtt", "kbd"), "evmqtt/kbd/action");
}

#[test]
fn availability_topic_shape() {
    assert_eq!(availability_topic("evmqtt"), "evmqtt/status");
}

#[test]
fn device_info_topic_shape() {
    assert_eq!(device_info_topic("evmqtt", "kbd"), "evmqtt/_devices/kbd");
}

#[test]
fn device_enabled_topic_shape() {
    assert_eq!(
        device_enabled_topic("evmqtt", "kbd"),
        "evmqtt/_devices/kbd/enabled"
    );
}

#[test]
fn enabled_wildcard_shape() {
    assert_eq!(
        device_enabled_wildcard("evmqtt"),
        "evmqtt/_devices/+/enabled"
    );
}

#[test]
fn parse_enabled_topic_extracts_slug() {
    assert_eq!(
        parse_enabled_topic("evmqtt", "evmqtt/_devices/kbd/enabled"),
        Some("kbd")
    );
}

#[test]
fn parse_enabled_topic_rejects_unrelated() {
    assert_eq!(
        parse_enabled_topic("evmqtt", "evmqtt/_devices/kbd"),
        None,
        "missing /enabled suffix",
    );
    assert_eq!(
        parse_enabled_topic("evmqtt", "homeassistant/foo"),
        None,
        "wrong prefix",
    );
    assert_eq!(
        parse_enabled_topic("evmqtt", "evmqtt/_devices//enabled"),
        None,
        "empty slug",
    );
    assert_eq!(
        parse_enabled_topic("evmqtt", "evmqtt/_devices/a/b/enabled"),
        None,
        "slug with slash",
    );
}

#[test]
fn device_identifier_shape() {
    assert_eq!(device_identifier("evmqtt", "kbd"), "evmqtt_kbd");
    assert_eq!(device_identifier("host-a", "kbd"), "host-a_kbd");
}

#[test]
fn device_discovery_topic_shape() {
    assert_eq!(
        device_discovery_topic("homeassistant", "evmqtt_kbd"),
        "homeassistant/device/evmqtt_kbd/config",
    );
}

#[test]
fn info_wildcard_shape() {
    assert_eq!(device_info_wildcard("evmqtt"), "evmqtt/_devices/+");
}

#[test]
fn enabled_topics_round_trip() {
    for slug in ["kbd", "usb-keyboard-2", "ü"] {
        let topic = device_enabled_topic("a/b", slug);
        assert_eq!(parse_enabled_topic("a/b", &topic), Some(slug));
    }
}

#[test]
fn prefix_must_match_whole_levels() {
    assert_eq!(parse_enabled_topic("evm", "evmqtt/_devices/kbd/enabled"), None);
    assert_eq!(parse_enabled_topic("evmqtt", "evmqtt/_devices/enabled"), None);
}

#[test]
fn actions_have_words_and_trigger_types() {
    assert_eq!(Action::Press.as_str(), "press");
    assert_eq!(Action::Release.as_str(), "release");
    assert_eq!(Action::Press.ha_type(), "button_short_press");
    assert_eq!(Action::Release.ha_type(), "button_short_release");
}
