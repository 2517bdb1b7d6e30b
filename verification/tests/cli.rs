use evmqtt_rs::cli::{device_rows, disable_devices, enable_devices, list_devices, remove_devices};
use evmqtt_rs::client::{Client, DeviceSnapshot};
use evmqtt_rs::config::MqttConfig;

fn snapshot() -> DeviceSnapshot {
    DeviceSnapshot {
        slug: "at-translated-set-2-keyboard".to_string(),
        name: "AT Translated Set 2 keyboard".to_string(),
        unique_id: None,
        bus: 0x11,
        vendor: 1,
        product: 1,
        version: 0xab00,
        enabled: Some(false),
    }
}

#[test]
fn table_looks_as_documented() {
    let expected = "\
╭──────────────────────────────┬─────────┬──────────────────────────────┬───────────┬────────┬────────┬─────────┬─────────╮
│ slug                         │ enabled │ name                         │ unique_id │ bus    │ vendor │ product │ version │
├──────────────────────────────┼─────────┼──────────────────────────────┼───────────┼────────┼────────┼─────────┼─────────┤
│ at-translated-set-2-keyboard │ off     │ AT Translated Set 2 keyboard │ -         │ 0x0011 │ 0x0001 │ 0x0001  │ 0xab00  │
╰──────────────────────────────┴─────────┴──────────────────────────────┴───────────┴────────┴────────┴─────────┴─────────╯";
    assert_eq!(list_devices("broker", &vec![snapshot()]), expected);
}

#[test]
fn no_devices_are_said_to_be_known() {
    assert_eq!(list_devices("broker", &vec![]), "no devices known to broker");
}

#[test]
fn rows_word_switch_and_serial() {
    let mut on = snapshot();
    on.enabled = Some(true);
    on.unique_id = Some("u".to_string());
    let mut open = snapshot();
    open.enabled = None;
    let rows = device_rows(&vec![on, open]);
    assert_eq!(rows.len(), 3);
    assert_eq!(rows[0][1], "enabled");
    assert_eq!((rows[1][1].as_str(), rows[1][3].as_str()), ("on", "u"));
    assert_eq!((rows[2][1].as_str(), rows[2][3].as_str()), ("?", "-"));
    assert_eq!(rows[1][7], "0xab00");
}

fn client() -> Client {
    let cfg = MqttConfig {
        host: "h".to_string(),
        port: 1883,
        username: None,
        password: None,
        topic_prefix: "evmqtt".to_string(),
        client_id_prefix: "c".to_string(),
        keepalive_secs: 30,
    };
    Client::connect(&cfg, 1).0
}

#[test]
fn orders_come_one_per_slug() {
    let slugs = vec!["a".to_string(), "b".to_string()];
    let out = enable_devices(&client(), &slugs);
    assert_eq!(out.len(), 2);
    assert_eq!(out[1].publish.topic, "evmqtt/_devices/b/enabled");
    assert_eq!(out[1].publish.payload, b"on");
    assert_eq!(out[1].confirmation, "enabled b");
    let out = disable_devices(&client(), &slugs);
    assert_eq!(out[0].publish.payload, b"off");
    assert_eq!(out[0].confirmation, "disabled a");
    let out = remove_devices(&client(), &slugs);
    assert!(out[0].publish.payload.is_empty() && out[0].publish.retain);
    assert_eq!(out[0].confirmation, "removed a");
}
