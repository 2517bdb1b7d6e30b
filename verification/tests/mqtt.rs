use evmqtt_rs::config::MqttConfig;
use evmqtt_rs::mqtt::{
    connect_plan, is_permanent, payload_body, poll_step, wait_for_permanent_failure, wait_ready,
    ConnState, ConnectionFailure, IncomingPublish, PollAction, PollEvent, Publish, WaitEvent,
};

#[test]
fn is_permanent_for_connection_refused() {
    assert!(is_permanent(ConnectionFailure::ConnectionRefused));
}

#[test]
fn is_permanent_for_not_connack() {
    assert!(is_permanent(ConnectionFailure::NotConnAck));
}

#[test]
fn is_permanent_for_tls() {
    assert!(is_permanent(ConnectionFailure::Tls));
}

#[test]
fn is_not_permanent_for_transient_errors() {
    // A bare I/O error (e.g. "connection reset") is the canonical
    // transient case: the broker is reachable but flaky, retrying
    // is the right answer.
    assert!(!is_permanent(ConnectionFailure::Io));
    assert!(!is_permanent(ConnectionFailure::NetworkTimeout));
    assert!(!is_permanent(ConnectionFailure::FlushTimeout));
    assert!(!is_permanent(ConnectionFailure::MqttState));
    assert!(!is_permanent(ConnectionFailure::RequestsDone));
}

/// Waits through the events and returns the verdict of the first that has one.
fn wait(events: &[WaitEvent]) -> Option<Result<(), String>> {
    events.iter().find_map(wait_ready)
}

#[test]
fn wait_ready_returns_immediately_when_already_connected() {
    wait(&[WaitEvent::State(ConnState::Connected)])
        .unwrap()
        .expect("Connected should resolve immediately");
}

#[test]
fn wait_ready_returns_on_connected_transition() {
    wait(&[
        WaitEvent::State(ConnState::Connecting),
        WaitEvent::State(ConnState::Connected),
    ])
    .unwrap()
    .expect("Connected should resolve");
}

#[test]
fn wait_ready_errors_on_permanent_failure() {
    let err = wait(&[WaitEvent::State(ConnState::PermanentFailure("bad creds".into()))])
        .unwrap()
        .expect_err("PermanentFailure must fail");
    assert_eq!(err, "MQTT connection failed: bad creds");
}

#[test]
fn wait_ready_errors_on_timeout() {
    let err = wait(&[
        WaitEvent::State(ConnState::Connecting),
        WaitEvent::TimedOut("50ms".to_string()),
    ])
    .unwrap()
    .expect_err("timeout must fail");
    assert_eq!(err, "timed out after 50ms waiting for MQTT CONNACK");
}

#[test]
fn wait_ready_errors_when_sender_dropped() {
    let err = wait(&[WaitEvent::State(ConnState::Connecting), WaitEvent::Closed])
        .unwrap()
        .expect_err("dropped sender must fail");
    assert_eq!(err, "MQTT eventloop terminated before connecting");
}

#[test]
fn only_a_final_failure_or_the_end_stops_the_watch() {
    assert!(!wait_for_permanent_failure(&WaitEvent::State(ConnState::Connecting)));
    assert!(!wait_for_permanent_failure(&WaitEvent::State(ConnState::Connected)));
    let failed = ConnState::PermanentFailure("no".to_string());
    assert!(wait_for_permanent_failure(&WaitEvent::State(failed)));
    assert!(wait_for_permanent_failure(&WaitEvent::Closed));
}

#[test]
fn state_starts_out_connecting() {
    assert_eq!(ConnState::default(), ConnState::Connecting);
}

fn failed(kind: ConnectionFailure) -> PollEvent {
    PollEvent::Failed { kind, text: "why".to_string() }
}

#[test]
fn driver_answers_each_event() {
    match poll_step(PollEvent::ConnAck, false) {
        PollAction::Announce(state) => assert_eq!(state, ConnState::Connected),
        other => panic!("{other:?}"),
    }
    let msg = IncomingPublish { topic: "t".to_string(), payload: vec![1], retain: true };
    match poll_step(PollEvent::Incoming(msg), false) {
        PollAction::Forward(m) => assert_eq!((m.topic.as_str(), m.payload, m.retain), ("t", vec![1], true)),
        other => panic!("{other:?}"),
    }
    assert!(matches!(poll_step(PollEvent::Other, true), PollAction::Continue));
}

#[test]
fn driver_retries_transient_errors_and_stops_on_final_ones() {
    match poll_step(failed(ConnectionFailure::Io), false) {
        PollAction::Retry { state, secs } => {
            assert_eq!(state, ConnState::Connecting);
            assert_eq!(secs, 2);
        }
        other => panic!("{other:?}"),
    }
    match poll_step(failed(ConnectionFailure::ConnectionRefused), false) {
        PollAction::StopWith(state) => {
            assert_eq!(state, ConnState::PermanentFailure("why".to_string()))
        }
        other => panic!("{other:?}"),
    }
    assert!(matches!(
        poll_step(failed(ConnectionFailure::ConnectionRefused), true),
        PollAction::Stop
    ));
    assert!(matches!(poll_step(failed(ConnectionFailure::Io), true), PollAction::Stop));
}

fn config() -> MqttConfig {
    MqttConfig {
        host: "h".to_string(),
        port: 1884,
        username: None,
        password: None,
        topic_prefix: "evmqtt".to_string(),
        client_id_prefix: "c".to_string(),
        keepalive_secs: 3,
    }
}

#[test]
fn plan_clamps_keepalive_and_leaves_a_will() {
    let plan = connect_plan(&config(), "id".to_string(), "evmqtt/status".to_string());
    assert_eq!(plan.client_id, "id");
    assert_eq!((plan.host.as_str(), plan.port), ("h", 1884));
    assert_eq!(plan.keepalive_secs, 5);
    assert!(plan.clean_session);
    assert_eq!(plan.capacity, 100);
    let will = Publish { topic: "evmqtt/status".to_string(), payload: b"offline".to_vec(), retain: true };
    assert_eq!(plan.last_will, will);
    let mut cfg = config();
    cfg.keepalive_secs = 60;
    let plan = connect_plan(&cfg, String::new(), String::new());
    assert_eq!(plan.keepalive_secs, 60);
}

#[test]
fn credentials_need_both_and_a_user() {
    let with = |user: Option<&str>, pass: Option<&str>| {
        let mut cfg = config();
        cfg.username = user.map(str::to_string);
        cfg.password = pass.map(str::to_string);
        connect_plan(&cfg, String::new(), String::new()).credentials
    };
    assert_eq!(with(Some("u"), Some("p")), Some(("u".to_string(), "p".to_string())));
    assert_eq!(with(Some("u"), Some("")), Some(("u".to_string(), String::new())));
    assert_eq!(with(Some(""), Some("p")), None);
    assert_eq!(with(Some("u"), None), None);
    assert_eq!(with(None, Some("p")), None);
}

#[test]
fn bodies_are_trimmed_text() {
    assert_eq!(payload_body(&b" on\n".to_vec()), "on");
    assert_eq!(payload_body(&vec![]), "");
    assert_eq!(payload_body(&vec![0xff, 0x6f]), "", "not UTF-8");
    assert_eq!(payload_body(&"\u{a0}ü ".as_bytes().to_vec()), "ü");
}

#[test]
fn messages_carry_text_or_nothing() {
    let p = Publish::text("t".to_string(), "ü", false);
    assert_eq!((p.topic.as_str(), p.payload.as_slice(), p.retain), ("t", "ü".as_bytes(), false));
    let p = Publish::empty_retained("t".to_string());
    assert!(p.payload.is_empty() && p.retain);
}
