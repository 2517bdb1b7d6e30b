use evmqtt_rs::client::{next_wait_millis, parse_info_slug, Client, DeviceSnapshot};
use evmqtt_rs::config::MqttConfig;
use evmqtt_rs::mqtt::{IncomingPublish, Publish};
use evmqtt_rs::topics::{device_enabled_topic, device_info_topic};

#[test]
fn parse_info_slug_round_trips_with_builder() {
    let topic = device_info_topic("evmqtt", "kbd");
    assert_eq!(parse_info_slug("evmqtt", &topic), Some("kbd"));
}

#[test]
fn parse_info_slug_rejects_enabled_subtopic() {
    let topic = device_enabled_topic("evmqtt", "kbd");
    // _devices/kbd/enabled is NOT the info topic itself.
    assert_eq!(parse_info_slug("evmqtt", &topic), None);
}

#[test]
fn parse_info_slug_rejects_wrong_prefix() {
    assert_eq!(parse_info_slug("evmqtt", "homeassistant/foo"), None);
}

#[test]
fn parse_info_slug_rejects_empty_slug() {
    assert_eq!(parse_info_slug("evmqtt", "evmqtt/_devices/"), None);
}

fn config() -> MqttConfig {
    MqttConfig {
        host: "h".to_string(),
        port: 1883,
        username: None,
        password: None,
        topic_prefix: "evmqtt".to_string(),
        client_id_prefix: "evmqtt-rs".to_string(),
        keepalive_secs: 30,
    }
}

fn client() -> Client {
    Client::connect(&config(), 9).0
}

fn msg(topic: &str, payload: &str) -> IncomingPublish {
    IncomingPublish {
        topic: topic.to_string(),
        payload: payload.as_bytes().to_vec(),
        retain: true,
    }
}

#[test]
fn client_connects_under_its_own_name_and_will() {
    let (_, plan) = Client::connect(&config(), 1234);
    assert_eq!(plan.client_id, "evmqtt-rs-cli-1234");
    assert_eq!(plan.last_will.topic, "evmqtt/status/cli-lwt");
    assert_eq!(plan.last_will.payload, b"offline");
}

#[test]
fn listing_subscribes_to_both_wildcards() {
    assert_eq!(
        client().subscriptions(),
        vec!["evmqtt/_devices/+", "evmqtt/_devices/+/enabled"]
    );
}

#[test]
fn listing_joins_info_and_switch_in_order_of_slugs() {
    let out = client().list_devices(&vec![
        msg("evmqtt/_devices/b/enabled", "on"),
        msg("evmqtt/_devices/b", "{\"name\":\"B\",\"unique_id\":\"u\",\"bus\":3,\"vendor\":65537}"),
        msg("evmqtt/_devices/a", "{\"slug\":\"zzz\",\"product\":-1,\"version\":1.5,\"name\":7}"),
        msg("evmqtt/_devices/c/enabled", "off"),
        msg("evmqtt/kbd/action", "a_press"),
    ]);
    let a = DeviceSnapshot {
        slug: "a".to_string(),
        name: String::new(),
        unique_id: None,
        bus: 0,
        vendor: 0,
        product: 0,
        version: 0,
        enabled: None,
    };
    let b = DeviceSnapshot {
        slug: "b".to_string(),
        name: "B".to_string(),
        unique_id: Some("u".to_string()),
        bus: 3,
        vendor: 1,
        product: 0,
        version: 0,
        enabled: Some(true),
    };
    assert_eq!(out, vec![a, b]);
}

#[test]
fn last_message_on_a_topic_wins() {
    let out = client().list_devices(&vec![
        msg("evmqtt/_devices/a", "{\"name\":\"old\"}"),
        msg("evmqtt/_devices/a", "{\"name\":\"new\"}"),
        msg("evmqtt/_devices/a", "{broken"),
        msg("evmqtt/_devices/a/enabled", "on"),
        msg("evmqtt/_devices/a/enabled", "off"),
    ]);
    assert_eq!(out.len(), 1);
    assert_eq!(out[0].name, "new");
    assert_eq!(out[0].enabled, Some(false));
}

#[test]
fn cleared_topics_drop_out() {
    let out = client().list_devices(&vec![
        msg("evmqtt/_devices/a", "{}"),
        msg("evmqtt/_devices/b", "[]"),
        msg("evmqtt/_devices/b/enabled", "on"),
        msg("evmqtt/_devices/a", ""),
        msg("evmqtt/_devices/b/enabled", ""),
    ]);
    assert_eq!(out.len(), 1);
    assert_eq!((out[0].slug.as_str(), out[0].enabled), ("b", None));
}

#[test]
fn listing_is_capped() {
    assert_eq!(next_wait_millis(0), Some(500));
    assert_eq!(next_wait_millis(4500), Some(500));
    assert_eq!(next_wait_millis(4501), Some(499));
    assert_eq!(next_wait_millis(4999), Some(1));
    assert_eq!(next_wait_millis(5000), None);
    assert_eq!(next_wait_millis(u128::MAX), None);
}

#[test]
fn commands_are_retained_messages() {
    let topic = "evmqtt/_devices/kbd/enabled".to_string();
    let expect = |payload: &[u8]| Publish {
        topic: topic.clone(),
        payload: payload.to_vec(),
        retain: true,
    };
    assert_eq!(client().enable_device("kbd"), expect(b"on"));
    assert_eq!(client().disable_device("kbd"), expect(b"off"));
    assert_eq!(client().remove_device("kbd"), expect(b""));
}
