//! The life of the daemon: who it is on the broker, and what it does in which
//! order.

use crate::config::MqttConfig;
use crate::mqtt::{
    connect_plan, credentials, opt_texts, text_publish, ConnectPlan, Publish, MIN_KEEPALIVE_SECS,
    REQUEST_CAPACITY,
};
use crate::text::{decimal, decimal_text, opt_text, trim, trimmed};
use crate::topics::{
    availability_topic, availability_topic_text, device_enabled_wildcard, enabled_topic_text,
    PAYLOAD_AVAILABLE, PAYLOAD_NOT_AVAILABLE,
};
use vstd::prelude::*;
use vstd::string::*;

verus! {

/// How long the daemon waits for the broker. Generous, so that the service can
/// come up before the network is fully online.
pub const READY_SECS: u64 = 30;

/// How long the broker gets to deliver retained messages before devices are
/// reported.
pub const SETTLE_MILLIS: u64 = 300;

/// How long the farewell gets to leave.
pub const DRAIN_MILLIS: u64 = 200;

/// The name of the machine: what its hostname file says, unless that is blank,
/// else what the environment says.
pub open spec fn host_text(file: Option<String>, var: Option<String>) -> Option<Seq<char>> {
    match file {
        Some(s) if trimmed(s@).len() > 0 => Some(trimmed(s@)),
        _ => opt_text(var),
    }
}

/// The name of the machine, out of the content of `/etc/hostname` and the value of
/// `HOSTNAME`.
pub fn hostname(file: Option<String>, var: Option<String>) -> (out: Option<String>)
    ensures
        opt_text(out) == host_text(file, var),
{
    if let Some(s) = &file {
        let t = trim(s.as_str());
        if !t.as_str().is_empty() {
            return Some(t);
        }
    }
    var
}

/// The client id of the process `pid` on the machine `host`.
pub open spec fn client_id_text(prefix: Seq<char>, host: Option<Seq<char>>, pid: u32) -> Seq<char> {
    let name = match host {
        Some(h) => h,
        None => "unknown"@,
    };
    prefix + "-"@ + name + "-"@ + decimal(pid as nat)
}

/// The client id of the process `pid` on the machine `host`.
pub fn build_client_id(prefix: &str, host: Option<String>, pid: u32) -> (out: String)
    ensures
        out@ == client_id_text(prefix@, opt_text(host), pid),
{
    let mut out: String = prefix.to_owned();
    out.append("-");
    match host {
        Some(h) => {
            out.append(h.as_str());
        },
        None => {
            out.append("unknown");
        },
    }
    out.append("-");
    out.append(decimal_text(pid as u128).as_str());
    out
}

/// What the daemon says to the broker.
#[derive(Debug)]
pub struct DaemonPlan {
    pub connect: ConnectPlan,
    /// Said first.
    pub online: Publish,
    /// The topic filter for enable and disable commands.
    pub commands: String,
    /// Said last.
    pub offline: Publish,
}

/// Plan what the daemon of the process `pid` on the machine `host` says to the
/// broker.
pub fn daemon_plan(mqtt: &MqttConfig, host: Option<String>, pid: u32) -> (out: DaemonPlan)
    ensures
        ({
            let status = availability_topic_text(mqtt@.topic_prefix);
            &&& out.connect.client_id@ == client_id_text(
                mqtt@.client_id_prefix,
                opt_text(host),
                pid,
            )
            &&& out.connect.host@ == mqtt@.host
            &&& out.connect.port == mqtt@.port
            &&& out.connect.keepalive_secs == if mqtt@.keepalive_secs < MIN_KEEPALIVE_SECS {
                MIN_KEEPALIVE_SECS
            } else {
                mqtt@.keepalive_secs
            }
            &&& out.connect.clean_session
            &&& out.connect.last_will@ == out.offline@
            &&& opt_texts(out.connect.credentials) == credentials(mqtt@)
            &&& out.connect.capacity == REQUEST_CAPACITY
            &&& out.online@ == text_publish(status, PAYLOAD_AVAILABLE@, true)
            &&& out.commands@ == enabled_topic_text(mqtt@.topic_prefix, "+"@)
            &&& out.offline@ == text_publish(status, PAYLOAD_NOT_AVAILABLE@, true)
        }),
{
    let prefix = mqtt.topic_prefix.as_str();
    let client_id = build_client_id(mqtt.client_id_prefix.as_str(), host, pid);
    DaemonPlan {
        connect: connect_plan(mqtt, client_id, availability_topic(prefix)),
        online: Publish::text(availability_topic(prefix), PAYLOAD_AVAILABLE, true),
        commands: device_enabled_wildcard(prefix),
        offline: Publish::text(availability_topic(prefix), PAYLOAD_NOT_AVAILABLE, true),
    }
}

/// What the daemon does next.
#[derive(Debug, Clone, Copy, PartialEq, Eq, Structural)]
pub enum Phase {
    /// Load the database.
    Load,
    /// Connect, and wait for the broker to accept.
    Connect,
    /// Say that it is online.
    Announce,
    /// Subscribe to commands, before any device is reported.
    Subscribe,
    /// Let retained messages arrive.
    Settle,
    /// Run the coordinator and the watcher, until told to stop or until the
    /// connection has failed for good.
    Serve,
    /// Stop the watcher and wait for it.
    StopWatcher,
    /// Say that it is offline.
    Farewell,
    /// Let the farewell leave.
    Drain,
    /// Disconnect politely.
    Disconnect,
    /// Stop the coordinator.
    StopCoordinator,
    /// Exit.
    Finished,
    /// Exit with the error of the phase that failed.
    Failed,
}

/// The phase behind one that succeeded or failed.
pub open spec fn next_phase(phase: Phase, ok: bool) -> Phase {
    match phase {
        Phase::Load => if ok {
            Phase::Connect
        } else {
            Phase::Failed
        },
        Phase::Connect => if ok {
            Phase::Announce
        } else {
            Phase::Failed
        },
        Phase::Announce => Phase::Subscribe,
        Phase::Subscribe => Phase::Settle,
        Phase::Settle => Phase::Serve,
        Phase::Serve => Phase::StopWatcher,
        Phase::StopWatcher => Phase::Farewell,
        Phase::Farewell => Phase::Drain,
        Phase::Drain => Phase::Disconnect,
        Phase::Disconnect => Phase::StopCoordinator,
        Phase::StopCoordinator => Phase::Finished,
        Phase::Finished => Phase::Finished,
        Phase::Failed => Phase::Failed,
    }
}

/// The phase behind one that succeeded or failed. A database that cannot be read
/// and a broker that does not accept end the daemon; any other failure is logged
/// and survived.
pub fn run_with_shutdown(phase: Phase, ok: bool) -> (out: Phase)
    ensures
        out == next_phase(phase, ok),
{
    match phase {
        Phase::Load => if ok {
            Phase::Connect
        } else {
            Phase::Failed
        },
        Phase::Connect => if ok {
            Phase::Announce
        } else {
            Phase::Failed
        },
        Phase::Announce => Phase::Subscribe,
        Phase::Subscribe => Phase::Settle,
        Phase::Settle => Phase::Serve,
        Phase::Serve => Phase::StopWatcher,
        Phase::StopWatcher => Phase::Farewell,
        Phase::Farewell => Phase::Drain,
        Phase::Drain => Phase::Disconnect,
        Phase::Disconnect => Phase::StopCoordinator,
        Phase::StopCoordinator => Phase::Finished,
        Phase::Finished => Phase::Finished,
        Phase::Failed => Phase::Failed,
    }
}

/// The phase after some phases went as told.
pub open spec fn phase_after(outcomes: Seq<bool>) -> Phase
    decreases outcomes.len(),
{
    if outcomes.len() == 0 {
        Phase::Load
    } else {
        next_phase(phase_after(outcomes.drop_last()), outcomes.last())
    }
}

/// The daemon fails only where the database cannot be read or the broker does not
/// accept. Once it is connected it goes through every phase, the farewell
/// included, whatever fails on the way.
pub proof fn lemma_farewell_is_said(outcomes: Seq<bool>)
    ensures
        phase_after(outcomes) is Failed ==> outcomes.len() >= 1 && (!outcomes[0] || (outcomes.len()
            >= 2 && !outcomes[1])),
        outcomes.len() >= 2 && outcomes[0] && outcomes[1] ==> {
            &&& outcomes.len() == 7 ==> phase_after(outcomes) is Farewell
            &&& outcomes.len() >= 11 ==> phase_after(outcomes) is Finished
        },
{
    lemma_phases(outcomes);
}

proof fn lemma_phases(outcomes: Seq<bool>)
    ensures
        outcomes.len() == 1 && outcomes[0] ==> phase_after(outcomes) is Connect,
        phase_after(outcomes) is Failed ==> outcomes.len() >= 1 && (!outcomes[0] || (outcomes.len()
            >= 2 && !outcomes[1])),
        outcomes.len() >= 2 && outcomes[0] && outcomes[1] ==> phase_after(outcomes) == nth_phase(
            outcomes.len(),
        ),
    decreases outcomes.len(),
{
    if outcomes.len() > 0 {
        let rest = outcomes.drop_last();
        lemma_phases(rest);
        if rest.len() > 0 {
            assert(rest[0] == outcomes[0]);
        } else {
            assert(phase_after(rest) is Load);
        }
        if rest.len() > 1 {
            assert(rest[1] == outcomes[1]);
        }
    }
}

/// The phase after `n` phases, from the second on.
spec fn nth_phase(n: nat) -> Phase {
    if n <= 2 {
        Phase::Announce
    } else if n == 3 {
        Phase::Subscribe
    } else if n == 4 {
        Phase::Settle
    } else if n == 5 {
        Phase::Serve
    } else if n == 6 {
        Phase::StopWatcher
    } else if n == 7 {
        Phase::Farewell
    } else if n == 8 {
        Phase::Drain
    } else if n == 9 {
        Phase::Disconnect
    } else if n == 10 {
        Phase::StopCoordinator
    } else {
        Phase::Finished
    }
}

} // verus!
