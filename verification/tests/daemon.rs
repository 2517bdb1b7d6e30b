use evmqtt_rs::config::MqttConfig;
use evmqtt_rs::daemon::{build_client_id, daemon_plan, hostname, run_with_shutdown, Phase};

#[test]
fn hostname_prefers_the_file() {
    let s = |t: &str| Some(t.to_string());
    assert_eq!(hostname(s("pi\n"), s("env")), s("pi"));
    assert_eq!(hostname(s(" \n"), s("env")), s("env"));
    assert_eq!(hostname(None, s("env")), s("env"));
    assert_eq!(hostname(None, None), None);
}

#[test]
fn client_ids_name_host_and_process() {
    assert_eq!(build_client_id("evmqtt-rs", Some("pi".to_string()), 42), "evmqtt-rs-pi-42");
    assert_eq!(build_client_id("e", None, 0), "e-unknown-0");
}

#[test]
fn plan_speaks_on_the_status_topic() {
    let cfg = MqttConfig {
        host: "h".to_string(),
        port: 1,
        username: None,
        password: None,
        topic_prefix: "den".to_string(),
        client_id_prefix: "c".to_string(),
        keepalive_secs: 30,
    };
    let plan = daemon_plan(&cfg, Some("pi".to_string()), 7);
    assert_eq!(plan.connect.client_id, "c-pi-7");
    assert_eq!(plan.online.topic, "den/status");
    assert_eq!(plan.online.payload, b"online");
    assert!(plan.online.retain);
    assert_eq!(plan.commands, "den/_devices/+/enabled");
    assert_eq!(plan.offline, plan.connect.last_will);
    assert_eq!(plan.offline.payload, b"offline");
}

#[test]
fn phases_follow_each_other() {
    let mut phase = Phase::Load;
    let mut seen = vec![phase];
    while phase != Phase::Finished {
        phase = run_with_shutdown(phase, true);
        seen.push(phase);
    }
    assert_eq!(
        seen,
        vec![
            Phase::Load,
            Phase::Connect,
            Phase::Announce,
            Phase::Subscribe,
            Phase::Settle,
            Phase::Serve,
            Phase::StopWatcher,
            Phase::Farewell,
            Phase::Drain,
            Phase::Disconnect,
            Phase::StopCoordinator,
            Phase::Finished,
        ]
    );
}

#[test]
fn only_loading_and_connecting_can_fail() {
    assert_eq!(run_with_shutdown(Phase::Load, false), Phase::Failed);
    assert_eq!(run_with_shutdown(Phase::Connect, false), Phase::Failed);
    let mut phase = Phase::Announce;
    let mut farewell = false;
    while phase != Phase::Finished {
        farewell |= phase == Phase::Farewell;
        phase = run_with_shutdown(phase, false);
    }
    assert!(farewell);
    assert_eq!(run_with_shutdown(Phase::Finished, false), Phase::Finished);
    assert_eq!(run_with_shutdown(Phase::Failed, true), Phase::Failed);
}
