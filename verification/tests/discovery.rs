use evdev::{AttributeSet, EventType, KeyCode, RelativeAxisCode};
use evmqtt_rs::discovery::{
    capability_fingerprint, capability_tag, classify_capabilities, event_paths, is_event_node,
    DeviceIdentity, OpenDevice, EV_KEY, KEY_A, KEY_KP0, REL_X, REL_Y,
};

#[test]
fn is_event_node_accepts_event_digits() {
    assert!(is_event_node("event0"));
    assert!(is_event_node("event42"));
}

#[test]
fn is_event_node_rejects_others() {
    assert!(!is_event_node("event"));
    assert!(!is_event_node("eventX"));
    assert!(!is_event_node("mice"));
    assert!(!is_event_node("js0"));
    assert!(!is_event_node("by-id"));
}

fn keys(codes: &[KeyCode]) -> Vec<u16> {
    let mut s = AttributeSet::<KeyCode>::new();
    for c in codes {
        s.insert(*c);
    }
    s.iter().map(|k| k.0).collect()
}

fn rels(codes: &[RelativeAxisCode]) -> Vec<u16> {
    let mut s = AttributeSet::<RelativeAxisCode>::new();
    for c in codes {
        s.insert(*c);
    }
    s.iter().map(|r| r.0).collect()
}

#[test]
fn classify_kbd_when_key_a_present() {
    let k = keys(&[KeyCode::KEY_A, KeyCode::KEY_VOLUMEUP]);
    assert_eq!(classify_capabilities(Some(&k), None), "kbd");
}

#[test]
fn classify_numpad_when_key_kp0_present_but_no_key_a() {
    let k = keys(&[KeyCode::KEY_KP0, KeyCode::KEY_KP1]);
    assert_eq!(classify_capabilities(Some(&k), None), "numpad");
}

#[test]
fn classify_kbd_wins_over_numpad() {
    // KEY_A wins even when KP keys are also present.
    let k = keys(&[KeyCode::KEY_A, KeyCode::KEY_KP0]);
    assert_eq!(classify_capabilities(Some(&k), None), "kbd");
}

#[test]
fn classify_mouse_when_rel_xy_present() {
    let r = rels(&[RelativeAxisCode::REL_X, RelativeAxisCode::REL_Y]);
    assert_eq!(classify_capabilities(None, Some(&r)), "mouse");
}

#[test]
fn classify_other_when_only_rel_x() {
    let r = rels(&[RelativeAxisCode::REL_X]);
    assert_eq!(classify_capabilities(None, Some(&r)), "other");
}

#[test]
fn classify_other_when_no_caps() {
    assert_eq!(classify_capabilities(None, None), "other");
}

#[test]
fn classify_other_when_keys_but_no_letters_or_kp() {
    // Power/consumer-control buttons: neither KEY_A nor KEY_KP0.
    let k = keys(&[KeyCode::KEY_POWER, KeyCode::KEY_MUTE]);
    assert_eq!(classify_capabilities(Some(&k), None), "other");
}

#[test]
fn codes_are_those_of_the_kernel() {
    assert_eq!(EV_KEY, EventType::KEY.0);
    assert_eq!(KEY_A, KeyCode::KEY_A.0);
    assert_eq!(KEY_KP0, KeyCode::KEY_KP0.0);
    assert_eq!(REL_X, RelativeAxisCode::REL_X.0);
    assert_eq!(REL_Y, RelativeAxisCode::REL_Y.0);
}

fn device(types: Vec<u16>, keys: Option<Vec<u16>>, rels: Option<Vec<u16>>) -> OpenDevice {
    OpenDevice {
        name: Some("Pad".to_string()),
        unique_name: Some(String::new()),
        physical_path: Some("usb-1/input0".to_string()),
        bus: 3,
        vendor: 1,
        product: 2,
        version: 3,
        event_types: types,
        keys,
        relative_axes: rels,
        absolute_axes: None,
    }
}

#[test]
fn fingerprint_is_fnv_over_sorted_sections() {
    let kbd = device(vec![0, 1], Some(vec![30, 48, 46, 32]), None);
    assert_eq!(capability_fingerprint(&kbd), "35775364e98d7540");
    let none = device(vec![], None, None);
    assert_eq!(capability_fingerprint(&none), "a3d1712bb7ad1e61");
    let mouse = device(vec![1, 2], Some(vec![272]), Some(vec![0, 1]));
    assert_eq!(capability_fingerprint(&mouse), "495bbdda0a503604");
}

#[test]
fn fingerprint_ignores_the_order_of_codes() {
    let a = device(vec![1, 0], Some(vec![48, 30]), Some(vec![1, 0]));
    let b = device(vec![0, 1], Some(vec![30, 48]), Some(vec![0, 1]));
    assert_eq!(capability_fingerprint(&a), capability_fingerprint(&b));
    let c = device(vec![0, 1], Some(vec![30]), Some(vec![0, 1]));
    assert_ne!(capability_fingerprint(&a), capability_fingerprint(&c));
}

#[test]
fn identity_takes_what_the_device_reports() {
    let dev = device(vec![0, 1], Some(vec![30]), None);
    let id = DeviceIdentity::from_open_device("/dev/input/event7".to_string(), &dev);
    assert_eq!(id.path, "/dev/input/event7");
    assert_eq!(id.name, "Pad");
    assert_eq!(id.unique_id, None, "an empty serial is no serial");
    assert_eq!(id.physical_path.as_deref(), Some("usb-1/input0"));
    assert_eq!((id.bus, id.vendor, id.product, id.version), (3, 1, 2, 3));
    assert!(id.has_keys);
    assert_eq!(id.capability_tag, "kbd");
    assert_eq!(capability_tag(&dev), "kbd");
    assert_eq!(id.capability_fingerprint, capability_fingerprint(&dev));
}

#[test]
fn nameless_device_is_unknown_and_may_lack_keys() {
    let mut dev = device(vec![0, 2], None, None);
    dev.name = None;
    let id = DeviceIdentity::from_open_device(String::new(), &dev);
    assert_eq!(id.name, "unknown");
    assert!(!id.has_keys);
}

#[test]
fn event_paths_are_filtered_and_sorted() {
    let names = ["mice", "event2", "event10", "by-id", "event1"];
    let names: Vec<String> = names.iter().map(|s| s.to_string()).collect();
    assert_eq!(
        event_paths(&names),
        vec!["/dev/input/event1", "/dev/input/event10", "/dev/input/event2"]
    );
}
