//! Watching `/dev/input`: which nodes to open, how long to try, what to report.

use crate::coordinator::CoordinatorMsg;
use crate::discovery::{event_node, input_path, is_event_node, node_path, DeviceIdentity};
use crate::text::opt_text;
use vstd::prelude::*;

verus! {

/// How long a node is tried.
pub const OPEN_RETRY_TIMEOUT_MILLIS: u128 = 30_000;

/// The pause between two tries.
pub const OPEN_RETRY_INTERVAL_MILLIS: u64 = 1_000;

/// The path of the event node called `name`.
pub open spec fn node_of(name: Option<&str>) -> Option<Seq<char>> {
    match name {
        Some(n) => if event_node(n@) {
            Some(node_path(n@))
        } else {
            None
        },
        None => None,
    }
}

/// The path of the event node called `name`; `None` for other names, and where
/// there is none that is text.
pub fn event_path(name: Option<&str>) -> (out: Option<String>)
    ensures
        opt_text(out) == node_of(name),
{
    match name {
        Some(raw) => {
            if is_event_node(raw) {
                Some(input_path(raw))
            } else {
                None
            }
        },
        None => None,
    }
}

/// The report of an opened device; devices without keys are skipped.
pub fn forward(identity: DeviceIdentity) -> (out: Option<CoordinatorMsg>)
    ensures
        out == if identity.has_keys {
            Some(CoordinatorMsg::DeviceConnected(identity))
        } else {
            None
        },
{
    if identity.has_keys {
        Some(CoordinatorMsg::DeviceConnected(identity))
    } else {
        None
    }
}

/// What to do after a try to open a node.
#[derive(Debug)]
pub enum OpenStep {
    /// The node is open: report it, if there is anything to report.
    Done(Option<CoordinatorMsg>),
    /// Try again after this pause.
    RetryAfterMillis(u64),
    GiveUp,
}

/// Opening a freshly-appeared `eventN` node can fail for a while: udev
/// hasn't run chown yet, or (in a Home Assistant addon) the cgroup
/// device controller hasn't been updated to grant us access. We don't
/// know which case we're in, so a node is tried every second for 30
/// seconds before giving up.
pub fn open_with_retry(opened: Option<DeviceIdentity>, elapsed_millis: u128) -> (out: OpenStep)
    ensures
        match opened {
            Some(id) => out == OpenStep::Done(
                if id.has_keys {
                    Some(CoordinatorMsg::DeviceConnected(id))
                } else {
                    None
                },
            ),
            None => out == if elapsed_millis >= OPEN_RETRY_TIMEOUT_MILLIS {
                OpenStep::GiveUp
            } else {
                OpenStep::RetryAfterMillis(OPEN_RETRY_INTERVAL_MILLIS)
            },
        },
{
    match opened {
        Some(id) => OpenStep::Done(forward(id)),
        None => {
            if elapsed_millis >= OPEN_RETRY_TIMEOUT_MILLIS {
                OpenStep::GiveUp
            } else {
                OpenStep::RetryAfterMillis(OPEN_RETRY_INTERVAL_MILLIS)
            }
        },
    }
}

/// What the watcher sees.
#[derive(Debug)]
pub enum WatchEvent {
    /// It is to stop.
    Shutdown,
    /// A node was created or its attributes changed.
    Node { name: Option<String> },
    /// Reading failed.
    ReadError,
    /// The stream ended.
    Ended,
    /// A try to open a node is over.
    Reaped,
}

/// What the watcher does about it.
#[derive(Debug)]
pub enum WatchStep {
    /// Stop, and abort all tries.
    Stop,
    /// Start trying to open this node.
    Open { path: String },
    Continue,
}

/// The watcher's answer to an event: every event node that shows up is tried,
/// errors are survived, and it stops when asked to or when nothing more can come.
pub fn run_watcher(event: &WatchEvent) -> (out: WatchStep)
    ensures
        match *event {
            WatchEvent::Shutdown | WatchEvent::Ended => out == WatchStep::Stop,
            WatchEvent::ReadError | WatchEvent::Reaped => out == WatchStep::Continue,
            WatchEvent::Node { name } => match name {
                Some(n) if event_node(n@) => out matches WatchStep::Open { path } && path@
                    == node_path(n@),
                _ => out == WatchStep::Continue,
            },
        },
{
    match event {
        WatchEvent::Shutdown | WatchEvent::Ended => WatchStep::Stop,
        WatchEvent::ReadError | WatchEvent::Reaped => WatchStep::Continue,
        WatchEvent::Node { name } => {
            let found = match name {
                Some(n) => event_path(Some(n.as_str())),
                None => None,
            };
            match found {
                Some(path) => WatchStep::Open { path },
                None => WatchStep::Continue,
            }
        },
    }
}

} // verus!
