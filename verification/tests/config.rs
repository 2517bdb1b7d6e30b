use evmqtt_rs::config::{
    Args, Mode, DEFAULT_DB, NO_DISCOVERY_PREFIX, NO_HOST, NO_MODE, NO_PORT, NO_TOPIC_PREFIX,
};
use std::path::PathBuf;

/// The arguments of an invocation, as the command line reader hands them over.
fn parse(args: &[&str]) -> Args {
    let mut out = Args::defaults(String::new(), PathBuf::from(DEFAULT_DB));
    let mut rest = args.iter();
    while let Some(flag) = rest.next() {
        match *flag {
            "--daemon" => out.daemon = true,
            "--list-devices" => out.list_devices = true,
            "--mqtt-host" => out.mqtt_host = rest.next().unwrap().to_string(),
            "--enable-device" => out.enable_device.push(rest.next().unwrap().to_string()),
            "--disable-device" => out.disable_device.push(rest.next().unwrap().to_string()),
            "--remove-device" => out.remove_device.push(rest.next().unwrap().to_string()),
            other => panic!("unknown flag {other}"),
        }
    }
    out
}

#[test]
fn parses_minimal_daemon_invocation() {
    let args = parse(&["--daemon", "--mqtt-host", "broker"]);
    let rt = args.into_runtime().expect("runtime");
    assert!(matches!(rt.mode, Mode::Daemon));
    assert_eq!(rt.mqtt.host, "broker");
    assert_eq!(rt.mqtt.port, 1883);
    assert_eq!(rt.mqtt.topic_prefix, "evmqtt");
    assert_eq!(rt.hass.discovery_prefix, "homeassistant");
    assert!(rt.hass.enabled);
}

#[test]
fn parses_list_devices() {
    let args = parse(&["--list-devices", "--mqtt-host", "broker"]);
    let rt = args.into_runtime().expect("runtime");
    assert!(matches!(rt.mode, Mode::ListDevices));
}

#[test]
fn parses_management_verbs() {
    let args = parse(&[
        "--mqtt-host",
        "broker",
        "--enable-device",
        "a",
        "--enable-device",
        "b",
        "--disable-device",
        "c",
        "--remove-device",
        "d",
    ]);
    let rt = args.into_runtime().expect("runtime");
    match rt.mode {
        Mode::Manage {
            enable,
            disable,
            remove,
        } => {
            assert_eq!(enable, vec!["a", "b"]);
            assert_eq!(disable, vec!["c"]);
            assert_eq!(remove, vec!["d"]);
        }
        other => panic!("expected Manage, got {other:?}"),
    }
}

#[test]
fn rejects_no_mode() {
    let args = parse(&["--mqtt-host", "broker"]);
    assert!(args.into_runtime().is_err());
}

#[test]
fn rejects_empty_host() {
    let args = parse(&["--daemon", "--mqtt-host", "   "]);
    assert!(args.into_runtime().is_err());
}

fn daemon() -> Args {
    parse(&["--daemon", "--mqtt-host", "broker"])
}

fn fault(args: Args) -> &'static str {
    args.into_runtime().unwrap_err()
}

#[test]
fn each_fault_has_its_words() {
    assert_eq!(fault(parse(&[])), NO_MODE);
    assert_eq!(fault(parse(&["--daemon"])), NO_HOST);
    let mut args = daemon();
    args.mqtt_port = 0;
    assert_eq!(fault(args), NO_PORT);
    let mut args = daemon();
    args.mqtt_topic_prefix = "\t".to_string();
    assert_eq!(fault(args), NO_TOPIC_PREFIX);
    let mut args = daemon();
    args.hass_discovery_prefix = String::new();
    assert_eq!(fault(args), NO_DISCOVERY_PREFIX);
}

#[test]
fn fault_texts_are_fixed() {
    assert_eq!(
        NO_MODE,
        "no mode selected: pass --daemon, --list-devices, \
         --enable-device, --disable-device, or --remove-device"
    );
    assert_eq!(NO_HOST, "--mqtt-host / EVMQTT_MQTT_HOST must not be empty");
    assert_eq!(NO_PORT, "--mqtt-port must be non-zero");
    assert_eq!(NO_TOPIC_PREFIX, "--mqtt-topic-prefix must not be empty");
    assert_eq!(NO_DISCOVERY_PREFIX, "--hass-discovery-prefix must not be empty");
}

#[test]
fn hass_name_defaults_to_topic_prefix() {
    let mut args = daemon();
    args.mqtt_topic_prefix = "den".to_string();
    assert_eq!(args.into_runtime().unwrap().hass.name, "den");
    let mut args = daemon();
    args.hass_name = Some("Living room".to_string());
    assert_eq!(args.into_runtime().unwrap().hass.name, "Living room");
}

#[test]
fn settings_are_carried_over() {
    let mut args = daemon();
    args.mqtt_username = Some("u".to_string());
    args.mqtt_password = Some("p".to_string());
    args.mqtt_keepalive_secs = 7;
    args.hass_enabled = false;
    let rt = args.into_runtime().unwrap();
    assert_eq!(rt.mqtt.username.as_deref(), Some("u"));
    assert_eq!(rt.mqtt.password.as_deref(), Some("p"));
    assert_eq!(rt.mqtt.client_id_prefix, "evmqtt-rs");
    assert_eq!(rt.mqtt.keepalive_secs, 7);
    assert!(!rt.hass.enabled);
    assert_eq!(rt.db_path, PathBuf::from("/var/lib/evmqtt-rs/db.toml"));
}

#[test]
fn modes_are_cloned_whole() {
    let args = parse(&["--mqtt-host", "b", "--enable-device", "a", "--remove-device", "d"]);
    match args.into_runtime().unwrap().mode.clone() {
        Mode::Manage { enable, disable, remove } => {
            assert_eq!((enable, remove), (vec!["a".to_string()], vec!["d".to_string()]));
            assert!(disable.is_empty());
        }
        other => panic!("expected Manage, got {other:?}"),
    }
}
