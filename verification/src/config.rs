//! Settings: the command line, and what the program makes of it.

use crate::text::{is_blank, opt_text, texts, trimmed};
use std::path::PathBuf;
use vstd::prelude::*;
use vstd::string::*;

verus! {

#[verifier::external_type_specification]
#[verifier::external_body]
pub struct ExPathBuf(std::path::PathBuf);

pub const DEFAULT_PORT: u16 = 1883;

pub const DEFAULT_TOPIC_PREFIX: &'static str = "evmqtt";

pub const DEFAULT_CLIENT_ID_PREFIX: &'static str = "evmqtt-rs";

pub const DEFAULT_KEEPALIVE_SECS: u16 = 30;

pub const DEFAULT_HASS_ENABLED: bool = true;

pub const DEFAULT_DISCOVERY_PREFIX: &'static str = "homeassistant";

pub const DEFAULT_DB: &'static str = "/var/lib/evmqtt-rs/db.toml";

pub const NO_MODE: &'static str = "no mode selected: pass --daemon, --list-devices, --enable-device, --disable-device, or --remove-device";

pub const NO_HOST: &'static str = "--mqtt-host / EVMQTT_MQTT_HOST must not be empty";

pub const NO_PORT: &'static str = "--mqtt-port must be non-zero";

pub const NO_TOPIC_PREFIX: &'static str = "--mqtt-topic-prefix must not be empty";

pub const NO_DISCOVERY_PREFIX: &'static str = "--hass-discovery-prefix must not be empty";

/// The command line, after flags, `EVMQTT_*` variables and defaults have been
/// merged.
#[derive(Debug)]
pub struct Args {
    /// MQTT broker hostname or IP.
    pub mqtt_host: String,
    /// MQTT broker port.
    pub mqtt_port: u16,
    /// MQTT username (omit for anonymous brokers).
    pub mqtt_username: Option<String>,
    /// MQTT password.
    pub mqtt_password: Option<String>,
    /// Topic prefix for every published topic.
    pub mqtt_topic_prefix: String,
    /// Client-id prefix; the runtime appends `-<host>-<pid>`.
    pub mqtt_client_id_prefix: String,
    /// MQTT keepalive in seconds (clamped to a minimum of 5).
    pub mqtt_keepalive_secs: u16,
    /// Publish HA discovery payloads when true.
    pub hass_enabled: bool,
    /// HA MQTT discovery prefix.
    pub hass_discovery_prefix: String,
    /// HA friendly-name prefix; the device name follows. When unset,
    /// defaults to `mqtt-topic-prefix` so changing the topic prefix
    /// also reflects in HA's UI without a second flag flip.
    pub hass_name: Option<String>,
    /// Path to the device database (TOML, atomically rewritten).
    pub db: PathBuf,
    /// Run the daemon: watch `/dev/input/event*` and bridge to MQTT.
    pub daemon: bool,
    /// List devices currently known to the running daemon (snapshot
    /// from retained `_devices/+` topics).
    pub list_devices: bool,
    /// Enable a device by slug. Repeat for multiple devices.
    pub enable_device: Vec<String>,
    /// Disable a device by slug. Repeat for multiple devices.
    pub disable_device: Vec<String>,
    /// Remove a device: drops the entry, clears retained MQTT topics
    /// and HA discovery. Repeat for multiple devices.
    pub remove_device: Vec<String>,
}

/// What the user asked the binary to do.
#[derive(Debug)]
pub enum Mode {
    Daemon,
    ListDevices,
    /// Slugs to enable, then slugs to disable, then slugs to remove.
    /// Any combination is allowed in one invocation.
    Manage { enable: Vec<String>, disable: Vec<String>, remove: Vec<String> },
}

/// The values in a [`Mode`].
pub enum ModeView {
    Daemon,
    ListDevices,
    Manage { enable: Seq<Seq<char>>, disable: Seq<Seq<char>>, remove: Seq<Seq<char>> },
}

impl View for Mode {
    type V = ModeView;

    open spec fn view(&self) -> ModeView {
        match *self {
            Mode::Daemon => ModeView::Daemon,
            Mode::ListDevices => ModeView::ListDevices,
            Mode::Manage { enable, disable, remove } => ModeView::Manage {
                enable: texts(enable@),
                disable: texts(disable@),
                remove: texts(remove@),
            },
        }
    }
}

impl Clone for Mode {
    fn clone(&self) -> (out: Self)
        ensures
            out@ == self@,
    {
        match self {
            Mode::Daemon => Mode::Daemon,
            Mode::ListDevices => Mode::ListDevices,
            Mode::Manage { enable, disable, remove } => Mode::Manage {
                enable: copy_texts(enable),
                disable: copy_texts(disable),
                remove: copy_texts(remove),
            },
        }
    }
}

fn copy_texts(all: &Vec<String>) -> (out: Vec<String>)
    ensures
        texts(out@) == texts(all@),
{
    let out = all.clone();
    assert(texts(out@) =~= texts(all@));
    out
}

#[derive(Debug)]
pub struct MqttConfig {
    pub host: String,
    pub port: u16,
    pub username: Option<String>,
    pub password: Option<String>,
    /// Base of every published topic: `<topic_prefix>/<slug>/action`
    /// for events and `<topic_prefix>/status` for the LWT availability
    /// topic.
    pub topic_prefix: String,
    pub client_id_prefix: String,
    pub keepalive_secs: u16,
}

/// The values in an [`MqttConfig`].
pub struct MqttView {
    pub host: Seq<char>,
    pub port: u16,
    pub username: Option<Seq<char>>,
    pub password: Option<Seq<char>>,
    pub topic_prefix: Seq<char>,
    pub client_id_prefix: Seq<char>,
    pub keepalive_secs: u16,
}

impl View for MqttConfig {
    type V = MqttView;

    open spec fn view(&self) -> MqttView {
        MqttView {
            host: self.host@,
            port: self.port,
            username: opt_text(self.username),
            password: opt_text(self.password),
            topic_prefix: self.topic_prefix@,
            client_id_prefix: self.client_id_prefix@,
            keepalive_secs: self.keepalive_secs,
        }
    }
}

impl Clone for MqttConfig {
    fn clone(&self) -> (out: Self)
        ensures
            out@ == self@,
    {
        MqttConfig {
            host: self.host.clone(),
            port: self.port,
            username: self.username.clone(),
            password: self.password.clone(),
            topic_prefix: self.topic_prefix.clone(),
            client_id_prefix: self.client_id_prefix.clone(),
            keepalive_secs: self.keepalive_secs,
        }
    }
}

#[derive(Debug)]
pub struct HassConfig {
    /// When `false`, action events still publish but retained discovery
    /// payloads are suppressed.
    pub enabled: bool,
    pub discovery_prefix: String,
    /// Prefixed to each device's HA friendly name.
    pub name: String,
}

/// The values in a [`HassConfig`].
pub struct HassView {
    pub enabled: bool,
    pub discovery_prefix: Seq<char>,
    pub name: Seq<char>,
}

impl View for HassConfig {
    type V = HassView;

    open spec fn view(&self) -> HassView {
        HassView {
            enabled: self.enabled,
            discovery_prefix: self.discovery_prefix@,
            name: self.name@,
        }
    }
}

impl Clone for HassConfig {
    fn clone(&self) -> (out: Self)
        ensures
            out@ == self@,
    {
        HassConfig {
            enabled: self.enabled,
            discovery_prefix: self.discovery_prefix.clone(),
            name: self.name.clone(),
        }
    }
}

#[derive(Debug)]
pub struct Runtime {
    pub mqtt: MqttConfig,
    pub hass: HassConfig,
    pub db_path: PathBuf,
    pub mode: Mode,
}

impl Args {
    /// The mode the flags select.
    pub open spec fn mode(self) -> Option<ModeView> {
        if self.daemon {
            Some(ModeView::Daemon)
        } else if self.list_devices {
            Some(ModeView::ListDevices)
        } else if self.enable_device@.len() > 0 || self.disable_device@.len() > 0
            || self.remove_device@.len() > 0 {
            Some(
                ModeView::Manage {
                    enable: texts(self.enable_device@),
                    disable: texts(self.disable_device@),
                    remove: texts(self.remove_device@),
                },
            )
        } else {
            None
        }
    }

    /// What is wrong with the settings.
    pub open spec fn fault(self) -> Option<Seq<char>> {
        if self.mode() is None {
            Some(NO_MODE@)
        } else if trimmed(self.mqtt_host@).len() == 0 {
            Some(NO_HOST@)
        } else if self.mqtt_port == 0 {
            Some(NO_PORT@)
        } else if trimmed(self.mqtt_topic_prefix@).len() == 0 {
            Some(NO_TOPIC_PREFIX@)
        } else if trimmed(self.hass_discovery_prefix@).len() == 0 {
            Some(NO_DISCOVERY_PREFIX@)
        } else {
            None
        }
    }

    pub open spec fn mqtt(self) -> MqttView {
        MqttView {
            host: self.mqtt_host@,
            port: self.mqtt_port,
            username: opt_text(self.mqtt_username),
            password: opt_text(self.mqtt_password),
            topic_prefix: self.mqtt_topic_prefix@,
            client_id_prefix: self.mqtt_client_id_prefix@,
            keepalive_secs: self.mqtt_keepalive_secs,
        }
    }

    pub open spec fn hass(self) -> HassView {
        HassView {
            enabled: self.hass_enabled,
            discovery_prefix: self.hass_discovery_prefix@,
            name: match self.hass_name {
                Some(n) => n@,
                None => self.mqtt_topic_prefix@,
            },
        }
    }

    /// Everything at its default, for the broker `host` and the database `db`.
    /// No mode is selected.
    pub fn defaults(host: String, db: PathBuf) -> (out: Self)
        ensures
            out.mqtt() == (MqttView {
                host: host@,
                port: DEFAULT_PORT,
                username: None,
                password: None,
                topic_prefix: DEFAULT_TOPIC_PREFIX@,
                client_id_prefix: DEFAULT_CLIENT_ID_PREFIX@,
                keepalive_secs: DEFAULT_KEEPALIVE_SECS,
            }),
            out.hass() == (HassView {
                enabled: DEFAULT_HASS_ENABLED,
                discovery_prefix: DEFAULT_DISCOVERY_PREFIX@,
                name: DEFAULT_TOPIC_PREFIX@,
            }),
            out.hass_name is None,
            out.db == db,
            out.mode() is None,
    {
        Args {
            mqtt_host: host,
            mqtt_port: DEFAULT_PORT,
            mqtt_username: None,
            mqtt_password: None,
            mqtt_topic_prefix: DEFAULT_TOPIC_PREFIX.to_owned(),
            mqtt_client_id_prefix: DEFAULT_CLIENT_ID_PREFIX.to_owned(),
            mqtt_keepalive_secs: DEFAULT_KEEPALIVE_SECS,
            hass_enabled: DEFAULT_HASS_ENABLED,
            hass_discovery_prefix: DEFAULT_DISCOVERY_PREFIX.to_owned(),
            hass_name: None,
            db,
            daemon: false,
            list_devices: false,
            enable_device: Vec::new(),
            disable_device: Vec::new(),
            remove_device: Vec::new(),
        }
    }

    /// Pull the raw args apart into the daemon's runtime view, or say what
    /// is wrong with them.
    pub fn into_runtime(self) -> (res: Result<Runtime, &'static str>)
        ensures
            match res {
                Ok(rt) => {
                    &&& self.fault() is None
                    &&& self.mode() == Some(rt.mode@)
                    &&& rt.mqtt@ == self.mqtt()
                    &&& rt.hass@ == self.hass()
                    &&& rt.db_path == self.db
                },
                Err(e) => self.fault() == Some(e@),
            },
    {
        let mode = if self.daemon {
            Mode::Daemon
        } else if self.list_devices {
            Mode::ListDevices
        } else if self.enable_device.len() > 0 || self.disable_device.len() > 0
            || self.remove_device.len() > 0 {
            Mode::Manage {
                enable: self.enable_device,
                disable: self.disable_device,
                remove: self.remove_device,
            }
        } else {
            return Err(NO_MODE);
        };
        if is_blank(self.mqtt_host.as_str()) {
            return Err(NO_HOST);
        }
        if self.mqtt_port == 0 {
            return Err(NO_PORT);
        }
        if is_blank(self.mqtt_topic_prefix.as_str()) {
            return Err(NO_TOPIC_PREFIX);
        }
        if is_blank(self.hass_discovery_prefix.as_str()) {
            return Err(NO_DISCOVERY_PREFIX);
        }
        let hass_name: String = match self.hass_name {
            Some(n) => n,
            None => self.mqtt_topic_prefix.clone(),
        };
        Ok(
            Runtime {
                mqtt: MqttConfig {
                    host: self.mqtt_host,
                    port: self.mqtt_port,
                    username: self.mqtt_username,
                    password: self.mqtt_password,
                    topic_prefix: self.mqtt_topic_prefix,
                    client_id_prefix: self.mqtt_client_id_prefix,
                    keepalive_secs: self.mqtt_keepalive_secs,
                },
                hass: HassConfig {
                    enabled: self.hass_enabled,
                    discovery_prefix: self.hass_discovery_prefix,
                    name: hass_name,
                },
                db_path: self.db,
                mode,
            },
        )
    }
}

} // verus!
