use evmqtt_rs::coordinator::CoordinatorMsg;
use evmqtt_rs::discovery::DeviceIdentity;
use evmqtt_rs::watcher::{
    event_path, forward, open_with_retry, run_watcher, OpenStep, WatchEvent, WatchStep,
};

#[test]
fn event_path_builds_full_path() {
    assert_eq!(
        event_path(Some("event3")),
        Some("/dev/input/event3".to_string())
    );
}

#[test]
fn event_path_skips_non_event_nodes() {
    assert_eq!(event_path(Some("mice")), None);
    assert_eq!(event_path(None), None);
}

fn identity(has_keys: bool) -> DeviceIdentity {
    DeviceIdentity {
        path: "/dev/input/event0".to_string(),
        name: "K".to_string(),
        unique_id: None,
        bus: 0,
        vendor: 0,
        product: 0,
        version: 0,
        physical_path: None,
        has_keys,
        capability_fingerprint: String::new(),
        capability_tag: "",
    }
}

#[test]
fn devices_without_keys_are_skipped() {
    assert!(forward(identity(false)).is_none());
    match forward(identity(true)) {
        Some(CoordinatorMsg::DeviceConnected(id)) => assert_eq!(id, identity(true)),
        other => panic!("expected a sighting, got {other:?}"),
    }
}

#[test]
fn nodes_are_tried_for_thirty_seconds() {
    assert!(matches!(open_with_retry(None, 0), OpenStep::RetryAfterMillis(1000)));
    assert!(matches!(open_with_retry(None, 29_999), OpenStep::RetryAfterMillis(1000)));
    assert!(matches!(open_with_retry(None, 30_000), OpenStep::GiveUp));
    assert!(matches!(
        open_with_retry(Some(identity(true)), 99_000),
        OpenStep::Done(Some(_))
    ));
    assert!(matches!(open_with_retry(Some(identity(false)), 0), OpenStep::Done(None)));
}

#[test]
fn watcher_opens_event_nodes_and_survives_errors() {
    let node = |name: &str| WatchEvent::Node { name: Some(name.to_string()) };
    match run_watcher(&node("event12")) {
        WatchStep::Open { path } => assert_eq!(path, "/dev/input/event12"),
        other => panic!("expected a path, got {other:?}"),
    }
    assert!(matches!(run_watcher(&node("js0")), WatchStep::Continue));
    assert!(matches!(run_watcher(&WatchEvent::Node { name: None }), WatchStep::Continue));
    assert!(matches!(run_watcher(&WatchEvent::ReadError), WatchStep::Continue));
    assert!(matches!(run_watcher(&WatchEvent::Reaped), WatchStep::Continue));
    assert!(matches!(run_watcher(&WatchEvent::Ended), WatchStep::Stop));
    assert!(matches!(run_watcher(&WatchEvent::Shutdown), WatchStep::Stop));
}
