//! Two devices, one daemon, one client, and a broker that keeps retained messages.

use evmqtt_rs::client::Client;
use evmqtt_rs::config::{HassConfig, MqttConfig};
use evmqtt_rs::coordinator::{Coordinator, CoordinatorMsg, Effect};
use evmqtt_rs::db::Database;
use evmqtt_rs::discovery::{DeviceIdentity, OpenDevice};
use evmqtt_rs::monitor::{run_device, DeviceEvent};
use evmqtt_rs::mqtt::{IncomingPublish, Publish};
use evmqtt_rs::watcher::forward;
use serde_json::Value;
use std::collections::BTreeMap;

fn mqtt_cfg() -> MqttConfig {
    MqttConfig {
        host: "127.0.0.1".into(),
        port: 1883,
        username: None,
        password: None,
        topic_prefix: "evmqtt".into(),
        client_id_prefix: "evmqtt-rs-test-daemon".into(),
        keepalive_secs: 30,
    }
}

struct World {
    coord: Coordinator,
    retained: BTreeMap<String, Vec<u8>>,
    monitors: BTreeMap<String, String>,
    saves: usize,
}

impl World {
    fn new() -> Self {
        let hass = HassConfig {
            enabled: true,
            discovery_prefix: "homeassistant".into(),
            name: "evmqtt".into(),
        };
        World {
            coord: Coordinator::new(Database::default(), mqtt_cfg(), hass),
            retained: BTreeMap::new(),
            monitors: BTreeMap::new(),
            saves: 0,
        }
    }

    fn broker(&mut self, p: &Publish) {
        if !p.retain {
            return;
        }
        if p.payload.is_empty() {
            self.retained.remove(&p.topic);
        } else {
            self.retained.insert(p.topic.clone(), p.payload.clone());
        }
        let effects = self.coord.handle_mqtt(&IncomingPublish {
            topic: p.topic.clone(),
            payload: p.payload.clone(),
            retain: p.retain,
        });
        self.perform(effects);
    }

    fn perform(&mut self, effects: Vec<Effect>) {
        for effect in effects {
            match effect {
                Effect::Persist => self.saves += 1,
                Effect::Publish(p) => self.broker(&p),
                Effect::StartMonitor { slug, action_topic, .. } => {
                    self.monitors.insert(slug, action_topic);
                }
                Effect::StopMonitor { slug } | Effect::ReleaseMonitor { slug } => {
                    self.monitors.remove(&slug);
                }
            }
        }
    }

    fn plug(&mut self, node: &str, name: &str, vendor: u16, product: u16) {
        let device = OpenDevice {
            name: Some(name.to_string()),
            unique_name: None,
            physical_path: None,
            bus: 6,
            vendor,
            product,
            version: 1,
            event_types: vec![0, 1],
            keys: Some(vec![30, 32, 46, 48]),
            relative_axes: None,
            absolute_axes: None,
        };
        let id = DeviceIdentity::from_open_device(node.to_string(), &device);
        let effects = self.coord.handle(forward(id).unwrap());
        self.perform(effects);
    }

    fn event(&mut self, slug: &str, event: DeviceEvent) -> Option<String> {
        let topic = self.monitors.get(slug)?.clone();
        let step = run_device(&topic, slug, &event);
        if let Some(msg) = step.tell {
            let effects = self.coord.handle(msg);
            self.perform(effects);
        }
        step.publish.map(|p| {
            assert_eq!(p.topic, format!("evmqtt/{slug}/action"));
            String::from_utf8(p.payload).unwrap()
        })
    }

    fn key(&mut self, slug: &str, code: u16, value: i32) -> Option<String> {
        self.event(slug, DeviceEvent::Key { code, value })
    }

    fn json(&self, topic: &str) -> Value {
        serde_json::from_slice(&self.retained[topic]).unwrap()
    }

    fn client(&self) -> Client {
        Client::connect(&mqtt_cfg(), 1).0
    }
}

const A: &str = "evmqtt-rs-e2e-a-kbd";
const B: &str = "evmqtt-rs-e2e-b-kbd";

#[test]
fn two_devices_end_to_end() {
    let mut w = World::new();
    w.plug("/dev/input/event1", "evmqtt-rs e2e A", 0xCAFE, 0xBABE);
    w.plug("/dev/input/event2", "evmqtt-rs e2e B", 0xDEAD, 0xBEEF);

    let info = w.json("evmqtt/_devices/evmqtt-rs-e2e-a-kbd");
    assert_eq!(info["slug"], A);
    assert_eq!(info["name"], "evmqtt-rs e2e A (kbd)");
    assert_eq!(info["vendor"], 0xCAFE);
    assert_eq!(info["product"], 0xBABE);
    assert!(info.get("observed_keys").is_none());
    assert_eq!(w.json("evmqtt/_devices/evmqtt-rs-e2e-b-kbd")["vendor"], 0xDEAD);
    assert_eq!(w.retained["evmqtt/_devices/evmqtt-rs-e2e-a-kbd/enabled"], b"off");
    assert_eq!(w.retained["evmqtt/_devices/evmqtt-rs-e2e-b-kbd/enabled"], b"off");
    let bundle = "homeassistant/device/evmqtt_evmqtt-rs-e2e-a-kbd/config";
    assert!(w.json(bundle)["cmps"]["enabled"].is_object());
    assert!(w.json(bundle)["cmps"].get("a_press").is_none());

    let order = w.client().enable_device(A);
    w.broker(&order);
    assert_eq!(w.retained["evmqtt/_devices/evmqtt-rs-e2e-a-kbd/enabled"], b"on");
    assert_eq!(w.key(A, 30, 1).as_deref(), Some("a_press"));
    assert_eq!(w.key(A, 30, 2), None);
    assert_eq!(w.key(A, 30, 0).as_deref(), Some("a_release"));
    assert!(w.json(bundle)["cmps"]["a_press"].is_object());
    assert!(w.json(bundle)["cmps"]["a_release"].is_object());
    assert_eq!(w.key(B, 46, 1), None, "B is disabled");

    w.event(A, DeviceEvent::Ended);
    assert!(!w.coord.is_connected(A));
    w.plug("/dev/input/event3", "evmqtt-rs e2e A", 0xCAFE, 0xBABE);
    assert_eq!(w.key(A, 32, 1).as_deref(), Some("d_press"));
    assert!(!w.retained.contains_key("evmqtt/_devices/evmqtt-rs-e2e-a-kbd-2"));

    let order = w.client().enable_device(B);
    w.broker(&order);
    assert_eq!(w.key(B, 48, 1).as_deref(), Some("b_press"));
    assert_eq!(w.key(B, 48, 0).as_deref(), Some("b_release"));
    assert_eq!(w.saves, 7);
}

#[test]
fn listing_shows_what_was_announced_until_it_is_removed() {
    let mut w = World::new();
    w.plug("/dev/input/event1", "evmqtt-rs e2e A", 0xCAFE, 0xBABE);
    w.plug("/dev/input/event2", "evmqtt-rs e2e B", 0xDEAD, 0xBEEF);
    let order = w.client().enable_device(B);
    w.broker(&order);
    let order = w.client().remove_device(A);
    w.broker(&order);
    let seen: Vec<IncomingPublish> = w
        .retained
        .iter()
        .map(|(topic, payload)| IncomingPublish {
            topic: topic.clone(),
            payload: payload.clone(),
            retain: true,
        })
        .collect();
    assert_eq!(seen.len(), 3, "every topic of A is cleared");
    let listed = w.client().list_devices(&seen);
    assert_eq!(listed.len(), 1);
    assert_eq!(listed[0].slug, B);
    assert_eq!(listed[0].name, "evmqtt-rs e2e B (kbd)");
    assert_eq!((listed[0].vendor, listed[0].product), (0xDEAD, 0xBEEF));
    assert_eq!(listed[0].enabled, Some(true));
    let effects = w.coord.handle(CoordinatorMsg::RemoveCommand { slug: A.to_string() });
    assert!(effects.is_empty());
}

#[test]
fn flipping_the_announced_switch_reaches_the_daemon() {
    let mut w = World::new();
    w.plug("/dev/input/event1", "evmqtt-rs e2e A", 0xCAFE, 0xBABE);
    let bundle = w.json("homeassistant/device/evmqtt_evmqtt-rs-e2e-a-kbd/config");
    let switch = &bundle["cmps"]["enabled"];
    for (member, on) in [("payload_on", true), ("payload_off", false)] {
        w.broker(&Publish {
            topic: switch["command_topic"].as_str().unwrap().to_string(),
            payload: switch[member].as_str().unwrap().as_bytes().to_vec(),
            retain: switch["retain"].as_bool().unwrap(),
        });
        assert_eq!(w.coord.database().find(A).unwrap().enabled, on);
        assert_eq!(w.coord.is_monitored(A), on);
    }
}
