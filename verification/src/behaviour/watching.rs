//! Watching the input directory.

use crate::behaviour::devices::{lemma_event_node, lemma_input_dir, numbered_event};
use crate::coordinator::CoordinatorMsg;
use crate::discovery::{input_path, node_path, DeviceIdentity};
use crate::watcher::{
    event_path, forward, open_with_retry, run_watcher, OpenStep, WatchEvent, WatchStep,
};
use vstd::prelude::*;
use vstd::string::*;

verus! {

proof fn lemma_path(name: Seq<char>)
    ensures
        node_path(name) == "/dev/input/"@ + name,
{
    lemma_input_dir();
    assert(node_path(name) =~= "/dev/input/"@ + name);
}

/// A node lies in the input directory.
pub proof fn law_input_path(name: &str, out: String)
    requires
        call_ensures(input_path, (name,), out),
    ensures
        out@ == "/dev/input/"@ + name@,
{
    lemma_path(name@);
}

/// Only event nodes have a path that is opened.
pub proof fn law_event_path(name: Option<&str>, out: Option<String>)
    requires
        call_ensures(event_path, (name,), out),
    ensures
        match name {
            Some(n) if numbered_event(n@) => out matches Some(p) && p@ == "/dev/input/"@ + n@,
            _ => out is None,
        },
{
    if let Some(n) = name {
        lemma_event_node(n@);
        lemma_path(n@);
    }
    assert(crate::text::opt_text(out) == crate::watcher::node_of(name));
}

/// Devices with keys are reported as they were read; others are not.
pub proof fn law_forward(id: DeviceIdentity, out: Option<CoordinatorMsg>)
    requires
        call_ensures(forward, (id,), out),
    ensures
        id.has_keys ==> (out matches Some(CoordinatorMsg::DeviceConnected(same)) && same == id),
        !id.has_keys ==> out is None,
{
}

/// A node that can not be opened is tried again every second, for thirty seconds;
/// one that can is reported if it has keys.
pub proof fn law_open(opened: Option<DeviceIdentity>, elapsed: u128, out: OpenStep)
    requires
        call_ensures(open_with_retry, (opened, elapsed), out),
    ensures
        match opened {
            Some(id) => {
                &&& id.has_keys ==> (out matches OpenStep::Done(
                    Some(CoordinatorMsg::DeviceConnected(same)),
                ) && same == id)
                &&& !id.has_keys ==> (out matches OpenStep::Done(m) && m is None)
            },
            None => {
                &&& elapsed < 30000 ==> (out matches OpenStep::RetryAfterMillis(ms) && ms == 1000)
                &&& elapsed >= 30000 ==> out is GiveUp
            },
        },
{
}

/// The watcher opens every event node that shows up, goes on whatever else
/// happens, and stops when it is asked to or when nothing more can come.
pub proof fn law_watch(event: WatchEvent, out: WatchStep)
    requires
        call_ensures(run_watcher, (&event,), out),
    ensures
        match event {
            WatchEvent::Shutdown => out is Stop,
            WatchEvent::Ended => out is Stop,
            WatchEvent::ReadError => out is Continue,
            WatchEvent::Reaped => out is Continue,
            WatchEvent::Node { name } => match name {
                Some(n) if numbered_event(n@) => out matches WatchStep::Open { path } && path@
                    == "/dev/input/"@ + n@,
                _ => out is Continue,
            },
        },
{
    if let WatchEvent::Node { name } = event {
        if let Some(n) = name {
            lemma_event_node(n@);
            lemma_path(n@);
        }
    }
}

} // verus!
