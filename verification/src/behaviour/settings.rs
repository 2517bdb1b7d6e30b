//! Settings, and what the daemon makes of them.

use crate::behaviour::words::{core_of, lemma_core, white};
use crate::config::{Args, Mode, MqttConfig, Runtime};
use crate::daemon::{build_client_id, daemon_plan, hostname, run_with_shutdown, DaemonPlan, Phase};
use crate::text::{decimal, texts, trimmed};
use std::path::PathBuf;
use vstd::prelude::*;
use vstd::string::*;
use vstd::utf8::encode_utf8;

verus! {

/// Whether a text holds white space only.
pub open spec fn all_white(s: Seq<char>) -> bool {
    forall|k: int| 0 <= k < s.len() ==> white(#[trigger] s[k])
}

proof fn lemma_blank(s: Seq<char>)
    ensures
        trimmed(s).len() == 0 <==> all_white(s),
{
    let (i, j) = lemma_core(s);
    if i < j {
        assert(!white(s[i]));
    }
}

/// Whether a mode is selected.
pub open spec fn has_mode(a: Args) -> bool {
    a.daemon || a.list_devices || a.enable_device@.len() > 0 || a.disable_device@.len() > 0
        || a.remove_device@.len() > 0
}

/// Whether the settings can be used.
pub open spec fn usable(a: Args) -> bool {
    &&& has_mode(a)
    &&& !all_white(a.mqtt_host@)
    &&& a.mqtt_port != 0
    &&& !all_white(a.mqtt_topic_prefix@)
    &&& !all_white(a.hass_discovery_prefix@)
}

/// Usable settings are taken over, each under its own name, and the name for Home
/// Assistant is the topic prefix unless it is set. `--daemon` comes before
/// `--list-devices`, and that before managing devices.
pub proof fn law_settings(a: Args, res: Result<Runtime, &'static str>)
    requires
        call_ensures(Args::into_runtime, (a,), res),
    ensures
        res is Ok <==> usable(a),
        res matches Ok(rt) ==> {
            &&& rt.mqtt.host@ == a.mqtt_host@
            &&& rt.mqtt.port == a.mqtt_port
            &&& rt.mqtt@.username == opt(a.mqtt_username)
            &&& rt.mqtt@.password == opt(a.mqtt_password)
            &&& rt.mqtt.topic_prefix@ == a.mqtt_topic_prefix@
            &&& rt.mqtt.client_id_prefix@ == a.mqtt_client_id_prefix@
            &&& rt.mqtt.keepalive_secs == a.mqtt_keepalive_secs
            &&& rt.hass.enabled == a.hass_enabled
            &&& rt.hass.discovery_prefix@ == a.hass_discovery_prefix@
            &&& rt.hass.name@ == match a.hass_name {
                Some(n) => n@,
                None => a.mqtt_topic_prefix@,
            }
            &&& rt.db_path == a.db
            &&& a.daemon ==> rt.mode is Daemon
            &&& !a.daemon && a.list_devices ==> rt.mode is ListDevices
            &&& !a.daemon && !a.list_devices ==> (
            rt.mode matches Mode::Manage { enable, disable, remove } && texts(enable@) == texts(
                a.enable_device@,
            ) && texts(disable@) == texts(a.disable_device@) && texts(remove@) == texts(
                a.remove_device@,
            ))
        },
{
    lemma_blank(a.mqtt_host@);
    lemma_blank(a.mqtt_topic_prefix@);
    lemma_blank(a.hass_discovery_prefix@);
    if let Ok(rt) = res {
        assert(rt.mqtt@ == a.mqtt());
        assert(rt.hass@ == a.hass());
        assert(Some(rt.mode@) == a.mode());
    }
}

/// The text inside an option.
pub open spec fn opt(o: Option<String>) -> Option<Seq<char>> {
    match o {
        Some(s) => Some(s@),
        None => None,
    }
}

/// Settings that can not be used are refused with the first thing that is wrong.
pub proof fn law_refusal(a: Args, res: Result<Runtime, &'static str>)
    requires
        call_ensures(Args::into_runtime, (a,), res),
        !usable(a),
    ensures
        res matches Err(e) && {
            &&& !has_mode(a) ==> e@
                == "no mode selected: pass --daemon, --list-devices, --enable-device, --disable-device, or --remove-device"@
            &&& has_mode(a) && all_white(a.mqtt_host@) ==> e@
                == "--mqtt-host / EVMQTT_MQTT_HOST must not be empty"@
            &&& has_mode(a) && !all_white(a.mqtt_host@) && a.mqtt_port == 0 ==> e@
                == "--mqtt-port must be non-zero"@
            &&& has_mode(a) && !all_white(a.mqtt_host@) && a.mqtt_port != 0 && all_white(
                a.mqtt_topic_prefix@,
            ) ==> e@ == "--mqtt-topic-prefix must not be empty"@
            &&& has_mode(a) && !all_white(a.mqtt_host@) && a.mqtt_port != 0 && !all_white(
                a.mqtt_topic_prefix@,
            ) ==> e@ == "--hass-discovery-prefix must not be empty"@
        },
{
    lemma_blank(a.mqtt_host@);
    lemma_blank(a.mqtt_topic_prefix@);
    lemma_blank(a.hass_discovery_prefix@);
}

/// The defaults.
pub proof fn law_defaults(host: String, db: PathBuf, out: Args)
    requires
        call_ensures(Args::defaults, (host, db), out),
    ensures
        out.mqtt_host@ == host@,
        out.db == db,
        out.mqtt_port == 1883,
        out.mqtt_username is None,
        out.mqtt_password is None,
        out.mqtt_topic_prefix@ == "evmqtt"@,
        out.mqtt_client_id_prefix@ == "evmqtt-rs"@,
        out.mqtt_keepalive_secs == 30,
        out.hass_enabled,
        out.hass_discovery_prefix@ == "homeassistant"@,
        out.hass_name is None,
        !has_mode(out),
{
    assert(out.mqtt().host == host@);
    assert(out.mqtt().username is None && out.mqtt().password is None);
    assert(out.hass().enabled);
}

/// The machine's name is what its hostname file says, unless that is blank, else
/// what the environment says.
pub proof fn law_hostname(file: Option<String>, var: Option<String>, out: Option<String>)
    requires
        call_ensures(hostname, (file, var), out),
    ensures
        match file {
            Some(f) if !all_white(f@) => out matches Some(h) && exists|i: int, j: int| #[trigger]
                core_of(f@, h@, i, j),
            _ => match var {
                Some(v) => out matches Some(h) && h@ == v@,
                None => out is None,
            },
        },
{
    if let Some(f) = file {
        lemma_blank(f@);
        let (i, j) = lemma_core(f@);
        assert(core_of(f@, trimmed(f@), i, j));
        if !all_white(f@) {
            assert(crate::text::opt_text(out) == Some(trimmed(f@)));
            assert(out->0@ == trimmed(f@));
            assert(core_of(f@, out->0@, i, j));
        }
    }
    assert(crate::text::opt_text(out) == crate::daemon::host_text(file, var));
}

/// A client id is the prefix, the machine and the process, with hyphens between.
pub proof fn law_client_id(prefix: &str, host: Option<String>, pid: u32, out: String)
    requires
        call_ensures(build_client_id, (prefix, host, pid), out),
    ensures
        out@ == prefix@ + "-"@ + (match host {
            Some(h) => h@,
            None => "unknown"@,
        }) + "-"@ + decimal(pid as nat),
{
}

/// The daemon says `online` when it comes and `offline` when it goes, retained and
/// on its status topic, and leaves `offline` behind should it break off. It takes
/// commands on the enabled topics of all devices.
pub proof fn law_daemon_plan(mqtt: MqttConfig, host: Option<String>, pid: u32, out: DaemonPlan)
    requires
        call_ensures(daemon_plan, (&mqtt, host, pid), out),
    ensures
        ({
            let status = mqtt.topic_prefix@ + "/status"@;
            &&& out.online.topic@ == status && out.online.retain && out.online.payload@
                == encode_utf8("online"@)
            &&& out.offline.topic@ == status && out.offline.retain && out.offline.payload@
                == encode_utf8("offline"@)
            &&& out.connect.last_will.topic@ == status && out.connect.last_will.retain
                && out.connect.last_will.payload@ == encode_utf8("offline"@)
            &&& out.commands@ == mqtt.topic_prefix@ + "/_devices/"@ + "+"@ + "/enabled"@
            &&& out.connect.client_id@ == mqtt.client_id_prefix@ + "-"@ + (match host {
                Some(h) => h@,
                None => "unknown"@,
            }) + "-"@ + decimal(pid as nat)
            &&& out.connect.host@ == mqtt.host@
            &&& out.connect.port == mqtt.port
            &&& out.connect.keepalive_secs >= 5
            &&& out.connect.keepalive_secs >= mqtt.keepalive_secs
            &&& out.connect.keepalive_secs == 5 || out.connect.keepalive_secs
                == mqtt.keepalive_secs
            &&& out.connect.clean_session
            &&& out.connect.capacity == 100
            &&& match (mqtt.username, mqtt.password) {
                (Some(u), Some(p)) if u@.len() > 0 => out.connect.credentials matches Some((v, q))
                    && v@ == u@ && q@ == p@,
                _ => out.connect.credentials is None,
            }
        }),
{
    assert(out.online@.topic == mqtt.topic_prefix@ + "/status"@);
    assert(out.offline@.topic == mqtt.topic_prefix@ + "/status"@);
    assert(out.connect.last_will@.topic == mqtt.topic_prefix@ + "/status"@);
    assert(crate::mqtt::opt_texts(out.connect.credentials) == crate::mqtt::credentials(mqtt@));
}

/// The place of a phase in the life of the daemon.
pub open spec fn place(p: Phase) -> int {
    match p {
        Phase::Load => 0,
        Phase::Connect => 1,
        Phase::Announce => 2,
        Phase::Subscribe => 3,
        Phase::Settle => 4,
        Phase::Serve => 5,
        Phase::StopWatcher => 6,
        Phase::Farewell => 7,
        Phase::Drain => 8,
        Phase::Disconnect => 9,
        Phase::StopCoordinator => 10,
        Phase::Finished => 11,
        Phase::Failed => 12,
    }
}

/// The daemon goes through its phases one after the other, whatever fails, but
/// ends where its database can not be loaded or the broker does not accept it.
pub proof fn law_phases(phase: Phase, ok: bool, out: Phase)
    requires
        call_ensures(run_with_shutdown, (phase, ok), out),
    ensures
        place(phase) < 11 && (ok || place(phase) > 1) ==> place(out) == place(phase) + 1,
        place(phase) <= 1 && !ok ==> out is Failed,
        place(phase) >= 11 ==> out == phase,
{
}

/// The waits of the daemon and its clients.
pub proof fn law_waits()
    ensures
        crate::daemon::READY_SECS == 30,
        crate::daemon::SETTLE_MILLIS == 300,
        crate::daemon::DRAIN_MILLIS == 200,
        crate::mqtt::SHUTDOWN_MILLIS == 500,
        crate::client::CONNECT_SECS == 5,
{
}

/// Where the database lies unless told otherwise.
pub proof fn law_default_database()
    ensures
        crate::config::DEFAULT_DB@ == "/var/lib/evmqtt-rs/db.toml"@,
{
}

} // verus!
