use evdev::KeyCode;
use evmqtt_rs::config::{HassConfig, MqttConfig};
use evmqtt_rs::db::DeviceRecord;
use evmqtt_rs::hass::{
    device_info_payload, discovery_payload, discovery_payload_for, event_payload, key_name,
    key_name_from, trigger_ids,
};
use evmqtt_rs::monitor::{run_device, DeviceEvent};
use evmqtt_rs::topics::Action;
use serde_json::Value;

fn mqtt() -> MqttConfig {
    MqttConfig {
        host: "x".into(),
        port: 1883,
        username: None,
        password: None,
        topic_prefix: "evmqtt".into(),
        client_id_prefix: "evmqtt-rs".into(),
        keepalive_secs: 30,
    }
}

fn hass() -> HassConfig {
    HassConfig {
        enabled: true,
        discovery_prefix: "homeassistant".into(),
        name: "evmqtt".into(),
    }
}

fn record_with_keys(keys: Vec<u16>) -> DeviceRecord {
    DeviceRecord {
        slug: "usb-keyboard".into(),
        name: "USB Keyboard".into(),
        unique_id: Some("abc-123".into()),
        bus: 3,
        vendor: 0x046d,
        product: 0xc52b,
        version: 0x0111,
        physical_path: None,
        capability_fingerprint: None,
        capability_tag: None,
        enabled: false,
        observed_keys: keys,
    }
}

#[test]
fn key_name_known_codes() {
    assert_eq!(key_name(KeyCode::KEY_A.code()), "KEY_A");
    assert_eq!(key_name(KeyCode::KEY_VOLUMEUP.code()), "KEY_VOLUMEUP");
}

fn parse(bytes: Vec<u8>) -> Value {
    serde_json::from_slice(&bytes).expect("valid JSON")
}

#[test]
fn discovery_always_includes_enabled_switch() {
    let rec = record_with_keys(vec![]);
    let payload = parse(discovery_payload(&rec, &mqtt(), &hass()));
    let cmps = payload["cmps"].as_object().unwrap();
    let sw = &cmps["enabled"];
    assert_eq!(sw["platform"], "switch");
    assert_eq!(sw["command_topic"], "evmqtt/_devices/usb-keyboard/enabled");
    assert_eq!(sw["state_topic"], "evmqtt/_devices/usb-keyboard/enabled");
    assert_eq!(sw["payload_on"], "on");
    assert_eq!(sw["unique_id"], "evmqtt_usb-keyboard_enabled");
    // Without observed keys, the switch is the only component.
    assert_eq!(cmps.len(), 1);
}

#[test]
fn discovery_adds_trigger_pair_per_observed_key() {
    let rec = record_with_keys(vec![KeyCode::KEY_VOLUMEUP.code()]);
    let payload = parse(discovery_payload(&rec, &mqtt(), &hass()));
    let cmps = payload["cmps"].as_object().unwrap();
    assert_eq!(cmps.len(), 1 /* switch */ + 2 /* press,release */);
    let press = &cmps["volumeup_press"];
    assert_eq!(press["platform"], "device_automation");
    assert_eq!(press["type"], "button_short_press");
    assert_eq!(press["subtype"], "volumeup");
    assert_eq!(press["topic"], "evmqtt/usb-keyboard/action");
    assert_eq!(press["payload"], "volumeup_press");
    let release = &cmps["volumeup_release"];
    assert_eq!(release["type"], "button_short_release");
    assert_eq!(release["payload"], "volumeup_release");
}

#[test]
fn discovery_carries_device_identifier_and_origin() {
    let rec = record_with_keys(vec![]);
    let payload = parse(discovery_payload(&rec, &mqtt(), &hass()));
    assert_eq!(payload["dev"]["ids"][0], "evmqtt_usb-keyboard");
    assert_eq!(payload["dev"]["name"], "evmqtt - USB Keyboard");
    assert_eq!(payload["o"]["name"], "evmqtt-rs");
    assert_eq!(payload["availability_topic"], "evmqtt/status");
}

#[test]
fn info_payload_carries_identifiers_only() {
    let rec = record_with_keys(vec![KeyCode::KEY_A.code(), KeyCode::KEY_VOLUMEUP.code()]);
    let info = parse(device_info_payload(&rec));
    assert_eq!(info["slug"], "usb-keyboard");
    assert_eq!(info["name"], "USB Keyboard");
    assert_eq!(info["unique_id"], "abc-123");
    assert_eq!(info["bus"], 3);
    assert_eq!(info["vendor"], 0x046d);
    assert_eq!(info["product"], 0xc52b);
    assert_eq!(info["version"], 0x0111);
    // Observed keys do NOT appear in the info topic -- they
    // surface as HA discovery triggers instead.
    assert!(info.get("observed_keys").is_none());
}

#[test]
fn info_payload_omits_unique_id_when_absent() {
    let mut rec = record_with_keys(vec![]);
    rec.unique_id = None;
    let info = parse(device_info_payload(&rec));
    assert!(info.get("unique_id").is_none());
}

#[test]
fn info_payload_is_compact_and_sorted() {
    let text = String::from_utf8(device_info_payload(&record_with_keys(vec![]))).unwrap();
    assert_eq!(
        text,
        "{\"bus\":3,\"name\":\"USB Keyboard\",\"product\":50475,\"slug\":\"usb-keyboard\",\
         \"unique_id\":\"abc-123\",\"vendor\":1133,\"version\":273}"
    );
}

#[test]
fn unknown_codes_get_a_decimal_name() {
    assert_eq!(key_name(0xfffe), "KEY_65534");
    assert_eq!(key_name_from(7, "unknown key: 7".to_string()), "KEY_7");
    assert_eq!(key_name_from(7, "BTN_TASK".to_string()), "BTN_TASK");
    assert_eq!(key_name_from(7, "KEY".to_string()), "KEY_7");
}

#[test]
fn switch_component_is_complete() {
    let payload = parse(discovery_payload(&record_with_keys(vec![]), &mqtt(), &hass()));
    let sw = &payload["cmps"]["enabled"];
    assert_eq!(sw["name"], "Enabled");
    assert_eq!(sw["payload_off"], "off");
    assert_eq!(sw["state_on"], "on");
    assert_eq!(sw["state_off"], "off");
    assert_eq!(sw["retain"], true);
    assert_eq!(sw["icon"], "mdi:keyboard");
    assert_eq!(sw.as_object().unwrap().len(), 11);
}

#[test]
fn bundle_is_complete() {
    let mut rec = record_with_keys(vec![]);
    rec.capability_tag = Some("kbd".into());
    let payload = parse(discovery_payload(&rec, &mqtt(), &hass()));
    assert_eq!(payload.as_object().unwrap().len(), 5);
    assert_eq!(payload["qos"], 1);
    assert_eq!(payload["dev"]["name"], "evmqtt - USB Keyboard (kbd)");
    assert_eq!(payload["dev"]["mdl"], "Input Device (USB Keyboard (kbd))");
    assert_eq!(payload["dev"]["mf"], "evmqtt-rs");
    assert_eq!(payload["dev"]["ids"].as_array().unwrap().len(), 1);
    assert_eq!(payload["dev"]["sw"], payload["o"]["sw"]);
    assert_eq!(payload["o"]["url"], "https://github.com/bdolgov/evmqtt-rs");
}

#[test]
fn components_follow_the_given_key_slugs() {
    let rec = record_with_keys(vec![30, 48, 300]);
    let slugs = vec!["a".to_string(), "b".to_string(), "a".to_string()];
    let payload = parse(discovery_payload_for(&rec, &slugs, &mqtt(), &hass()));
    let cmps = payload["cmps"].as_object().unwrap();
    assert_eq!(cmps.len(), 7);
    assert_eq!(cmps["b_press"]["subtype"], "b");
    assert_eq!(cmps["a_release"]["subtype"], "a");
    assert_eq!(cmps["a_release"]["payload"], "a_release");
    assert_eq!(cmps["a_300_release"]["subtype"], "a_300");
    assert_eq!(cmps["a_300_release"]["payload"], "a_release");
}

#[test]
fn later_keys_of_a_slug_go_by_their_code() {
    let ids = |codes: &[u16], slugs: &[&str]| {
        let slugs = slugs.iter().map(|s| s.to_string()).collect();
        trigger_ids(&codes.to_vec(), &slugs)
    };
    assert_eq!(ids(&[105, 272], &["left", "left"]), ["left", "left_272"]);
    assert_eq!(ids(&[272, 7, 105], &["left", "x", "left"]), ["left", "x", "left_105"]);
    assert_eq!(ids(&[1, 2, 3], &["a", "a", "a"]), ["a", "a_2", "a_3"]);
    // A code that is listed twice is one key.
    assert_eq!(ids(&[1, 2, 1, 2], &["a", "a", "a", "a"]), ["a", "a_2", "a", "a_2"]);
    assert!(ids(&[], &[]).is_empty());
}

#[test]
fn events_are_worded_key_and_action() {
    assert_eq!(event_payload("volumeup", Action::Press), "volumeup_press");
    assert_eq!(event_payload("a", Action::Release), "a_release");
}

#[test]
fn every_event_has_its_trigger_with_or_without_a_name() {
    let rec = record_with_keys(vec![30, 700]);
    let payload = parse(discovery_payload(&rec, &mqtt(), &hass()));
    for code in [30, 700] {
        for value in [0, 1] {
            let event = DeviceEvent::Key { code, value };
            let publish = run_device("t", "kbd", &event).publish.unwrap();
            let text = String::from_utf8(publish.payload).unwrap();
            assert_eq!(payload["cmps"][text.as_str()]["payload"], text.as_str());
        }
    }
    assert!(payload["cmps"]["700_press"].is_object());
}

#[test]
fn keys_of_equal_slug_have_pairs_of_their_own() {
    let rec = record_with_keys(vec![105, 272]);
    let payload = parse(discovery_payload(&rec, &mqtt(), &hass()));
    let cmps = payload["cmps"].as_object().unwrap();
    assert_eq!(cmps.len(), 5);
    for action in ["press", "release"] {
        let event = format!("left_{action}");
        assert_eq!(cmps[&event]["subtype"], "left");
        assert_eq!(cmps[&event]["payload"], event.as_str());
        let later = &cmps[&format!("left_272_{action}")];
        assert_eq!(later["subtype"], "left_272");
        assert_eq!(later["payload"], event.as_str());
    }
}

#[test]
fn a_new_key_brings_two_more_components() {
    for (known, code) in [(vec![30], 48), (vec![105], 272), (vec![272], 105), (vec![], 700)] {
        let mut rec = record_with_keys(known);
        let before = parse(discovery_payload(&rec, &mqtt(), &hass()));
        assert!(rec.record_observed_key(code));
        let after = parse(discovery_payload(&rec, &mqtt(), &hass()));
        let before = before["cmps"].as_object().unwrap();
        let after = after["cmps"].as_object().unwrap();
        assert_eq!(after.len(), before.len() + 2);
        for (id, component) in before {
            assert_eq!(after.get(id), Some(component));
        }
    }
}
