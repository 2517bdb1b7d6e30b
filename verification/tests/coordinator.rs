use evmqtt_rs::config::{HassConfig, MqttConfig};
use evmqtt_rs::coordinator::{command_of, Coordinator, CoordinatorMsg, Effect};
use evmqtt_rs::db::{Database, DeviceRecord};
use evmqtt_rs::discovery::DeviceIdentity;
use evmqtt_rs::mqtt::{IncomingPublish, Publish};
use evmqtt_rs::topics::PAYLOAD_ENABLED;

fn mqtt_cfg() -> MqttConfig {
    MqttConfig {
        host: "x".into(),
        port: 1883,
        username: None,
        password: None,
        topic_prefix: "evmqtt".into(),
        client_id_prefix: "test".into(),
        keepalive_secs: 30,
    }
}

fn hass_cfg() -> HassConfig {
    HassConfig {
        enabled: true,
        discovery_prefix: "homeassistant".into(),
        name: "evmqtt".into(),
    }
}

fn rec(slug: &str, enabled: bool) -> DeviceRecord {
    DeviceRecord {
        slug: slug.to_string(),
        name: "Test Device".to_string(),
        unique_id: None,
        bus: 0,
        vendor: 0,
        product: 0,
        version: 0,
        physical_path: None,
        capability_fingerprint: None,
        capability_tag: None,
        enabled,
        observed_keys: Vec::new(),
    }
}

fn make_coord(initial: Vec<DeviceRecord>) -> Coordinator {
    Coordinator::new(Database { devices: initial }, mqtt_cfg(), hass_cfg())
}

fn persists(effects: &[Effect]) -> bool {
    effects.iter().any(|e| matches!(e, Effect::Persist))
}

#[test]
fn on_enable_is_idempotent_when_state_matches() {
    // Echo absorption: HA's own publishes come back over the
    // subscription, and a no-op must not rewrite the DB.
    let mut coord = make_coord(vec![rec("kbd", true)]);
    let effects = coord.handle(CoordinatorMsg::EnableCommand {
        slug: "kbd".into(),
        on: true,
    });
    assert!(!persists(&effects), "no-op enable must not persist the DB");
}

#[test]
fn on_enable_persists_when_state_changes() {
    let mut coord = make_coord(vec![rec("kbd", false)]);
    let effects = coord.handle(CoordinatorMsg::EnableCommand {
        slug: "kbd".into(),
        on: true,
    });
    assert!(persists(&effects), "real state change must persist the DB");
}

#[test]
fn empty_payload_on_enabled_topic_routes_to_remove() {
    let mut coord = make_coord(vec![rec("kbd", false)]);
    coord.handle_mqtt(&IncomingPublish {
        topic: "evmqtt/_devices/kbd/enabled".to_string(),
        payload: Vec::new(),
        retain: true,
    });
    assert!(
        coord.database().find("kbd").is_none(),
        "remove must drop the record"
    );
}

#[test]
fn on_payload_routes_to_enable_command() {
    let mut coord = make_coord(vec![rec("kbd", false)]);
    coord.handle_mqtt(&IncomingPublish {
        topic: "evmqtt/_devices/kbd/enabled".to_string(),
        payload: PAYLOAD_ENABLED.as_bytes().to_vec(),
        retain: true,
    });
    assert_eq!(coord.database().find("kbd").map(|r| r.enabled), Some(true));
}

#[test]
fn unrecognised_payload_is_ignored() {
    let mut coord = make_coord(vec![rec("kbd", false)]);
    let effects = coord.handle_mqtt(&IncomingPublish {
        topic: "evmqtt/_devices/kbd/enabled".to_string(),
        payload: b"maybe".to_vec(),
        retain: true,
    });
    assert_eq!(
        coord.database().find("kbd").map(|r| r.enabled),
        Some(false),
        "bad payloads must not change state",
    );
    assert!(!persists(&effects), "no-op must not persist the DB");
}

#[test]
fn payload_that_is_not_text_is_ignored() {
    let mut coord = make_coord(vec![rec("kbd", false)]);
    let effects = coord.handle_mqtt(&IncomingPublish {
        topic: "evmqtt/_devices/kbd/enabled".to_string(),
        payload: vec![0xff],
        retain: true,
    });
    assert_eq!(coord.database().find("kbd").map(|r| r.enabled), Some(false));
    assert_eq!(coord.database().devices.len(), 1);
    assert!(effects.is_empty());
}

fn identity(name: &str) -> DeviceIdentity {
    DeviceIdentity {
        path: "/dev/input/event0".to_string(),
        name: name.to_string(),
        unique_id: None,
        bus: 0,
        vendor: 0,
        product: 0,
        version: 0,
        physical_path: None,
        has_keys: true,
        capability_fingerprint: String::new(),
        capability_tag: "",
    }
}

/// One line per effect: its kind, and topic or slug.
fn outline(effects: &[Effect]) -> Vec<String> {
    effects
        .iter()
        .map(|e| match e {
            Effect::Persist => "persist".to_string(),
            Effect::Publish(p) => {
                assert!(p.retain);
                format!("publish {}{}", p.topic, if p.payload.is_empty() { " (empty)" } else { "" })
            }
            Effect::StartMonitor { slug, action_topic, .. } => format!("start {slug} {action_topic}"),
            Effect::StopMonitor { slug } => format!("stop {slug}"),
            Effect::ReleaseMonitor { slug } => format!("release {slug}"),
        })
        .collect()
}

#[test]
fn new_device_is_registered_disabled_and_announced() {
    let mut coord = make_coord(vec![]);
    let effects = coord.handle(CoordinatorMsg::DeviceConnected(identity("USB Keyboard")));
    assert_eq!(
        outline(&effects),
        vec![
            "persist",
            "publish evmqtt/_devices/usb-keyboard",
            "publish evmqtt/_devices/usb-keyboard/enabled",
            "publish homeassistant/device/evmqtt_usb-keyboard/config",
        ]
    );
    assert!(coord.is_connected("usb-keyboard"));
    assert!(!coord.is_monitored("usb-keyboard"));
    assert!(!coord.database().devices[0].enabled);
    let again = coord.handle(CoordinatorMsg::DeviceConnected(identity("USB Keyboard")));
    assert!(again.is_empty(), "a second sighting does nothing");
}

#[test]
fn enabled_device_is_monitored_while_plugged_in() {
    let mut coord = make_coord(vec![rec("kbd", true)]);
    let effects = coord.handle(CoordinatorMsg::DeviceConnected(identity("Test Device")));
    assert_eq!(outline(&effects), vec!["start kbd evmqtt/kbd/action"]);
    assert!(coord.is_monitored("kbd"));
    let effects = coord.handle(CoordinatorMsg::DeviceDisconnected { slug: "kbd".into() });
    assert_eq!(outline(&effects), vec!["release kbd"]);
    assert!(!coord.is_connected("kbd") && !coord.is_monitored("kbd"));
    let effects = coord.handle(CoordinatorMsg::DeviceConnected(identity("Test Device")));
    assert_eq!(outline(&effects), vec!["start kbd evmqtt/kbd/action"]);
    assert_eq!(coord.database().devices.len(), 1);
}

#[test]
fn switching_starts_and_stops_the_monitor() {
    let mut coord = make_coord(vec![rec("kbd", false)]);
    coord.handle(CoordinatorMsg::DeviceConnected(identity("Test Device")));
    let on = coord.handle(CoordinatorMsg::EnableCommand { slug: "kbd".into(), on: true });
    assert_eq!(
        outline(&on),
        vec!["persist", "publish evmqtt/_devices/kbd/enabled", "start kbd evmqtt/kbd/action"]
    );
    match &on[1] {
        Effect::Publish(p) => assert_eq!(p.payload, b"on"),
        other => panic!("{other:?}"),
    }
    let off = coord.handle(CoordinatorMsg::EnableCommand { slug: "kbd".into(), on: false });
    assert_eq!(
        outline(&off),
        vec!["persist", "publish evmqtt/_devices/kbd/enabled", "stop kbd"]
    );
    assert!(coord.is_connected("kbd") && !coord.is_monitored("kbd"));
}

#[test]
fn enabling_an_absent_device_starts_nothing() {
    let mut coord = make_coord(vec![rec("kbd", false)]);
    let effects = coord.handle(CoordinatorMsg::EnableCommand { slug: "kbd".into(), on: true });
    assert_eq!(outline(&effects), vec!["persist", "publish evmqtt/_devices/kbd/enabled"]);
    let effects = coord.handle(CoordinatorMsg::EnableCommand { slug: "nope".into(), on: true });
    assert!(effects.is_empty());
}

#[test]
fn new_key_republishes_info_and_discovery_once() {
    let mut coord = make_coord(vec![rec("kbd", true)]);
    let effects = coord.handle(CoordinatorMsg::KeyObserved { slug: "kbd".into(), code: 30 });
    assert_eq!(
        outline(&effects),
        vec![
            "persist",
            "publish evmqtt/_devices/kbd",
            "publish homeassistant/device/evmqtt_kbd/config",
        ]
    );
    match &effects[2] {
        Effect::Publish(p) => {
            let text = String::from_utf8(p.payload.clone()).unwrap();
            assert!(text.contains("a_press") && text.contains("a_release"));
        }
        other => panic!("{other:?}"),
    }
    let again = coord.handle(CoordinatorMsg::KeyObserved { slug: "kbd".into(), code: 30 });
    assert!(again.is_empty());
    let unknown = coord.handle(CoordinatorMsg::KeyObserved { slug: "x".into(), code: 30 });
    assert!(unknown.is_empty());
}

#[test]
fn removal_clears_the_retained_topics() {
    let mut coord = make_coord(vec![rec("kbd", true), rec("other", true)]);
    coord.handle(CoordinatorMsg::DeviceConnected(identity("Test Device")));
    let effects = coord.handle(CoordinatorMsg::RemoveCommand { slug: "kbd".into() });
    assert_eq!(
        outline(&effects),
        vec![
            "persist",
            "stop kbd",
            "publish evmqtt/_devices/kbd (empty)",
            "publish evmqtt/_devices/kbd/enabled (empty)",
            "publish homeassistant/device/evmqtt_kbd/config (empty)",
        ]
    );
    assert!(!coord.is_connected("kbd"));
    assert!(coord.database().find("other").is_some());
    assert!(coord.handle(CoordinatorMsg::RemoveCommand { slug: "kbd".into() }).is_empty());
}

fn echo(p: &Publish) -> IncomingPublish {
    IncomingPublish {
        topic: p.topic.clone(),
        payload: p.payload.clone(),
        retain: p.retain,
    }
}

#[test]
fn echoes_do_nothing() {
    let mut coord = make_coord(vec![rec("kbd", false), rec("pad", true)]);
    let mut sent = coord.republish_known();
    assert_eq!(sent.len(), 6);
    for msg in [
        CoordinatorMsg::DeviceConnected(identity("New")),
        CoordinatorMsg::EnableCommand { slug: "kbd".into(), on: true },
        CoordinatorMsg::KeyObserved { slug: "kbd".into(), code: 1 },
        CoordinatorMsg::RemoveCommand { slug: "pad".into() },
    ] {
        for effect in &sent {
            if let Effect::Publish(p) = effect {
                assert!(coord.handle_mqtt(&echo(p)).is_empty(), "{p:?}");
            }
        }
        sent = coord.handle(msg);
    }
    for effect in &sent {
        if let Effect::Publish(p) = effect {
            assert!(coord.handle_mqtt(&echo(p)).is_empty(), "{p:?}");
        }
    }
}

#[test]
fn known_devices_are_republished_disabled_ones_too() {
    let coord = make_coord(vec![rec("kbd", false)]);
    assert_eq!(
        outline(&coord.republish_known()),
        vec![
            "publish evmqtt/_devices/kbd",
            "publish evmqtt/_devices/kbd/enabled",
            "publish homeassistant/device/evmqtt_kbd/config",
        ]
    );
}

#[test]
fn discovery_can_be_switched_off() {
    let mut hass = hass_cfg();
    hass.enabled = false;
    let db = Database { devices: vec![rec("kbd", false)] };
    let coord = Coordinator::new(db, mqtt_cfg(), hass);
    assert_eq!(
        outline(&coord.republish_known()),
        vec!["publish evmqtt/_devices/kbd", "publish evmqtt/_devices/kbd/enabled"]
    );
}

#[test]
fn shutdown_stops_every_monitor() {
    let mut coord = make_coord(vec![]);
    for name in ["B", "A"] {
        coord.handle(CoordinatorMsg::DeviceConnected(identity(name)));
        let slug = name.to_lowercase();
        coord.handle(CoordinatorMsg::EnableCommand { slug, on: true });
    }
    let mut stops = outline(&coord.abort_all_monitors());
    stops.sort();
    assert_eq!(stops, vec!["stop a", "stop b"]);
    assert!(coord.abort_all_monitors().is_empty());
}

#[test]
fn commands_are_read_from_enabled_topics_only() {
    let msg = |topic: &str, payload: &[u8]| IncomingPublish {
        topic: topic.to_string(),
        payload: payload.to_vec(),
        retain: false,
    };
    assert!(matches!(
        command_of("evmqtt", &msg("evmqtt/_devices/kbd/enabled", b" off\n")),
        Some(CoordinatorMsg::EnableCommand { slug, on: false }) if slug == "kbd"
    ));
    assert!(matches!(
        command_of("evmqtt", &msg("evmqtt/_devices/kbd/enabled", b" \n")),
        Some(CoordinatorMsg::RemoveCommand { slug }) if slug == "kbd"
    ));
    assert!(command_of("evmqtt", &msg("evmqtt/_devices/kbd/enabled", b"\xff")).is_none());
    assert!(command_of("evmqtt", &msg("evmqtt/_devices/kbd/enabled", b"on\xff")).is_none());
    assert!(command_of("evmqtt", &msg("evmqtt/_devices/kbd/enabled", b"ON")).is_none());
    assert!(command_of("evmqtt", &msg("evmqtt/_devices/kbd", b"on")).is_none());
    assert!(command_of("evmqtt", &msg("other/_devices/kbd/enabled", b"on")).is_none());
}
