use evdev::KeyCode;
use evmqtt_rs::coordinator::CoordinatorMsg;
use evmqtt_rs::hass::key_name;
use evmqtt_rs::monitor::{
    evdev_value_to_action, is_disconnect, key_event, run_device, DeviceEvent, ENODEV, ENXIO,
};
use evmqtt_rs::slug::key_slug;
use evmqtt_rs::topics::Action;
use std::io;

#[test]
fn press_release_classified() {
    assert_eq!(evdev_value_to_action(1), Some(Action::Press));
    assert_eq!(evdev_value_to_action(0), Some(Action::Release));
}

#[test]
fn autorepeat_ignored() {
    assert_eq!(evdev_value_to_action(2), None);
    assert_eq!(evdev_value_to_action(42), None);
}

#[test]
fn enodev_is_classified_as_disconnect() {
    let e = io::Error::from_raw_os_error(ENODEV);
    assert!(is_disconnect(e.raw_os_error()));
    let e = io::Error::from_raw_os_error(ENXIO);
    assert!(is_disconnect(e.raw_os_error()));
    let e = io::Error::from_raw_os_error(1); // EPERM
    assert!(!is_disconnect(e.raw_os_error()));
    assert!(!is_disconnect(None));
}

#[test]
fn key_press_is_published_and_reported() {
    let event = DeviceEvent::Key { code: KeyCode::KEY_VOLUMEUP.code(), value: 1 };
    let step = run_device("evmqtt/kbd/action", "kbd", &event);
    let publish = step.publish.unwrap();
    assert_eq!(publish.topic, "evmqtt/kbd/action");
    assert_eq!(publish.payload, b"volumeup_press");
    assert!(!publish.retain);
    assert!(matches!(
        step.tell,
        Some(CoordinatorMsg::KeyObserved { slug, code: 115 }) if slug == "kbd"
    ));
    assert!(!step.exit);
}

#[test]
fn autorepeat_does_nothing() {
    let event = DeviceEvent::Key { code: 30, value: 2 };
    let step = run_device("t", "kbd", &event);
    assert!(step.publish.is_none() && step.tell.is_none() && !step.exit);
    let step = run_device("t", "kbd", &DeviceEvent::Other);
    assert!(step.publish.is_none() && step.tell.is_none() && !step.exit);
}

#[test]
fn lost_devices_are_reported_once() {
    let lost = [
        (DeviceEvent::OpenFailed, false),
        (DeviceEvent::StreamFailed, false),
        (DeviceEvent::ReadError { errno: Some(ENODEV) }, true),
        (DeviceEvent::ReadError { errno: Some(5) }, false),
        (DeviceEvent::Ended, true),
    ];
    for (event, ordinary) in lost {
        let step = run_device("t", "kbd", &event);
        assert!(step.exit);
        assert_eq!(step.ordinary, ordinary);
        assert!(step.publish.is_none());
        assert!(matches!(
            step.tell,
            Some(CoordinatorMsg::DeviceDisconnected { slug }) if slug == "kbd"
        ));
    }
}

#[test]
fn requested_exit_is_not_reported() {
    let step = run_device("t", "kbd", &DeviceEvent::Shutdown);
    assert!(step.exit && step.tell.is_none() && step.publish.is_none());
}

#[test]
fn events_are_worded_by_what_is_shown() {
    let step = key_event("t", "kbd", 272, "BTN_LEFT", 0);
    assert_eq!(step.publish.unwrap().payload, b"left_release");
    let step = key_event("t", "kbd", 9999, "unknown key: 9999", 1);
    assert_eq!(step.publish.unwrap().payload, b"9999_press");
}

#[test]
fn keys_without_a_name_go_by_their_number() {
    let step = run_device("t", "kbd", &DeviceEvent::Key { code: 700, value: 1 });
    let publish = step.publish.unwrap();
    assert_eq!(publish.payload, b"700_press");
    assert!(!publish.retain);
    let step = run_device("t", "kbd", &DeviceEvent::Key { code: 700, value: 0 });
    assert_eq!(step.publish.unwrap().payload, b"700_release");
    assert_eq!(key_slug(&key_name(700)), "700");
}
