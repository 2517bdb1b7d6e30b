//! The MQTT connection: messages, its states, and how failures are met.

use crate::config::{MqttConfig, MqttView};
use crate::text::{trim, trimmed, utf8_content, utf8_text};
use crate::topics::PAYLOAD_NOT_AVAILABLE;
use vstd::prelude::*;
use vstd::string::*;
use vstd::utf8::encode_utf8;

verus! {

/// Keepalives shorter than this are raised to it.
pub const MIN_KEEPALIVE_SECS: u16 = 5;

/// How many requests to the broker may queue up.
pub const REQUEST_CAPACITY: usize = 100;

/// The pause after a transient error.
pub const RETRY_SECS: u64 = 2;

/// How long the connection gets to close politely.
pub const SHUTDOWN_MILLIS: u64 = 500;

/// A message that arrived.
#[derive(Debug)]
pub struct IncomingPublish {
    pub topic: String,
    pub payload: Vec<u8>,
    pub retain: bool,
}

/// A message to send.
#[derive(Debug, PartialEq, Eq)]
pub struct Publish {
    pub topic: String,
    pub payload: Vec<u8>,
    pub retain: bool,
}

/// The values in a message.
pub struct PublishView {
    pub topic: Seq<char>,
    pub payload: Seq<u8>,
    pub retain: bool,
}

impl View for IncomingPublish {
    type V = PublishView;

    open spec fn view(&self) -> PublishView {
        PublishView { topic: self.topic@, payload: self.payload@, retain: self.retain }
    }
}

impl Clone for IncomingPublish {
    fn clone(&self) -> (out: Self)
        ensures
            out@ == self@,
    {
        let payload = self.payload.clone();
        assert(payload@ =~= self.payload@);
        IncomingPublish { topic: self.topic.clone(), payload, retain: self.retain }
    }
}

impl View for Publish {
    type V = PublishView;

    open spec fn view(&self) -> PublishView {
        PublishView { topic: self.topic@, payload: self.payload@, retain: self.retain }
    }
}

/// A message that carries a text.
pub open spec fn text_publish(topic: Seq<char>, body: Seq<char>, retain: bool) -> PublishView {
    PublishView { topic, payload: encode_utf8(body), retain }
}

/// The retained message that clears a topic.
pub open spec fn clearing(topic: Seq<char>) -> PublishView {
    PublishView { topic, payload: Seq::empty(), retain: true }
}

impl Publish {
    /// A message that carries a text.
    pub fn text(topic: String, body: &str, retain: bool) -> (out: Self)
        ensures
            out@ == text_publish(topic@, body@, retain),
    {
        Publish { topic, payload: body.as_bytes_vec(), retain }
    }

    /// The retained message that clears a topic.
    pub fn empty_retained(topic: String) -> (out: Self)
        ensures
            out@ == clearing(topic@),
    {
        let payload: Vec<u8> = Vec::new();
        assert(payload@ =~= Seq::<u8>::empty());
        Publish { topic, payload, retain: true }
    }
}

/// The text of a payload without surrounding white space, as a listing of the
/// devices reads it: a payload that is not UTF-8 says nothing.
pub open spec fn body_text(payload: Seq<u8>) -> Seq<char> {
    trimmed(
        match utf8_content(payload) {
            Some(s) => s,
            None => ""@,
        },
    )
}

/// The text of a payload without surrounding white space, empty where the payload
/// is not UTF-8.
pub fn payload_body(payload: &Vec<u8>) -> (out: String)
    ensures
        out@ == body_text(payload@),
{
    match utf8_text(payload) {
        Some(s) => trim(s),
        None => trim(""),
    }
}

/// Three-state lifecycle of the connection:
/// * `Connecting`: initial; or a transient error is being retried.
/// * `Connected`: the broker has sent CONNACK.
/// * `PermanentFailure(reason)`: a clearly-fatal error (connection refused, TLS
///   handshake failure, protocol mismatch) was observed; no more retries.
#[derive(Debug, PartialEq, Eq)]
pub enum ConnState {
    Connecting,
    Connected,
    PermanentFailure(String),
}

/// The values in a [`ConnState`].
pub enum ConnView {
    Connecting,
    Connected,
    PermanentFailure(Seq<char>),
}

impl View for ConnState {
    type V = ConnView;

    open spec fn view(&self) -> ConnView {
        match *self {
            ConnState::Connecting => ConnView::Connecting,
            ConnState::Connected => ConnView::Connected,
            ConnState::PermanentFailure(reason) => ConnView::PermanentFailure(reason@),
        }
    }
}

impl Default for ConnState {
    fn default() -> (out: Self)
        ensures
            out@ == ConnView::Connecting,
    {
        ConnState::Connecting
    }
}

impl Clone for ConnState {
    fn clone(&self) -> (out: Self)
        ensures
            out@ == self@,
    {
        match self {
            ConnState::Connecting => ConnState::Connecting,
            ConnState::Connected => ConnState::Connected,
            ConnState::PermanentFailure(reason) => ConnState::PermanentFailure(reason.clone()),
        }
    }
}

/// The ways in which driving the connection fails.
#[derive(Debug, Clone, Copy, PartialEq, Eq, Structural)]
pub enum ConnectionFailure {
    MqttState,
    NetworkTimeout,
    FlushTimeout,
    Tls,
    Io,
    ConnectionRefused,
    NotConnAck,
    RequestsDone,
}

/// Whether retrying is pointless.
pub open spec fn permanent(e: ConnectionFailure) -> bool {
    e is ConnectionRefused || e is NotConnAck || e is Tls
}

/// Heuristic for "this error will not go away by retrying".
/// Conservative: only the variants where we have definitively
/// heard "no" from the peer count. Anything that might just be the
/// network being unreachable for a moment stays transient.
pub fn is_permanent(e: ConnectionFailure) -> (yes: bool)
    ensures
        yes == permanent(e),
{
    match e {
        ConnectionFailure::ConnectionRefused
        | ConnectionFailure::NotConnAck
        | ConnectionFailure::Tls => true,
        _ => false,
    }
}

/// What one turn of the connection brought.
#[derive(Debug)]
pub enum PollEvent {
    /// The broker accepted the connection.
    ConnAck,
    /// A message arrived.
    Incoming(IncomingPublish),
    /// Any other traffic.
    Other,
    /// The connection failed, for the reason `text`.
    Failed { kind: ConnectionFailure, text: String },
}

/// What the driver of the connection does about it.
#[derive(Debug)]
pub enum PollAction {
    /// Announce a new state and go on.
    Announce(ConnState),
    /// Hand the message on and go on.
    Forward(IncomingPublish),
    /// Go on.
    Continue,
    /// Announce a new state, pause for this long and go on.
    Retry { state: ConnState, secs: u64 },
    /// Announce a new state and stop.
    StopWith(ConnState),
    /// Stop.
    Stop,
}

/// The driver's answer to one turn of the connection. While a transient error is
/// retried, the connection is in the state `Connecting` again. Errors after a
/// deliberate shutdown only end it.
pub fn poll_step(event: PollEvent, shutting_down: bool) -> (out: PollAction)
    ensures
        match event {
            PollEvent::ConnAck => out matches PollAction::Announce(s) && s@ == ConnView::Connected,
            PollEvent::Incoming(msg) => out == PollAction::Forward(msg),
            PollEvent::Other => out == PollAction::Continue,
            PollEvent::Failed { kind, text } => if shutting_down {
                out == PollAction::Stop
            } else if permanent(kind) {
                out matches PollAction::StopWith(s) && s@ == ConnView::PermanentFailure(text@)
            } else {
                out matches PollAction::Retry { state, secs } && state@ == ConnView::Connecting && secs
                    == RETRY_SECS
            },
        },
{
    match event {
        PollEvent::ConnAck => PollAction::Announce(ConnState::Connected),
        PollEvent::Incoming(msg) => PollAction::Forward(msg),
        PollEvent::Other => PollAction::Continue,
        PollEvent::Failed { kind, text } => {
            if shutting_down {
                PollAction::Stop
            } else if is_permanent(kind) {
                PollAction::StopWith(ConnState::PermanentFailure(text))
            } else {
                PollAction::Retry { state: ConnState::Connecting, secs: RETRY_SECS }
            }
        },
    }
}

/// What someone who waits for the connection sees.
#[derive(Debug)]
pub enum WaitEvent {
    /// The connection is in this state.
    State(ConnState),
    /// The driver is gone.
    Closed,
    /// The wait is over; it was this long.
    TimedOut(String),
}

/// What a wait for the connection comes to.
pub enum Verdict {
    Ready,
    Failed(Seq<char>),
    Wait,
}

/// What a wait for readiness makes of an event.
pub open spec fn readiness(event: WaitEvent) -> Verdict {
    match event {
        WaitEvent::State(state) => match state@ {
            ConnView::Connected => Verdict::Ready,
            ConnView::PermanentFailure(reason) => Verdict::Failed(
                "MQTT connection failed: "@ + reason,
            ),
            ConnView::Connecting => Verdict::Wait,
        },
        WaitEvent::Closed => Verdict::Failed("MQTT eventloop terminated before connecting"@),
        WaitEvent::TimedOut(span) => Verdict::Failed(
            "timed out after "@ + span@ + " waiting for MQTT CONNACK"@,
        ),
    }
}

/// The answer to an event while waiting for the broker to acknowledge CONNECT:
/// `None` to go on waiting.
pub fn wait_ready(event: &WaitEvent) -> (out: Option<Result<(), String>>)
    ensures
        match out {
            None => readiness(*event) is Wait,
            Some(Ok(())) => readiness(*event) is Ready,
            Some(Err(e)) => readiness(*event) == Verdict::Failed(e@),
        },
{
    match event {
        WaitEvent::State(state) => match state {
            ConnState::Connected => Some(Ok(())),
            ConnState::PermanentFailure(reason) => {
                let mut e: String = "MQTT connection failed: ".to_owned();
                e.append(reason.as_str());
                Some(Err(e))
            },
            ConnState::Connecting => None,
        },
        WaitEvent::Closed => Some(Err("MQTT eventloop terminated before connecting".to_owned())),
        WaitEvent::TimedOut(span) => {
            let mut e: String = "timed out after ".to_owned();
            e.append(span.as_str());
            e.append(" waiting for MQTT CONNACK");
            Some(Err(e))
        },
    }
}

/// Whether someone who waits for the connection to fail for good has seen
/// enough: it did, or nothing more will come.
pub fn wait_for_permanent_failure(event: &WaitEvent) -> (done: bool)
    ensures
        done == match *event {
            WaitEvent::State(state) => state@ is PermanentFailure,
            WaitEvent::Closed => true,
            WaitEvent::TimedOut(_) => false,
        },
{
    match event {
        WaitEvent::State(state) => match state {
            ConnState::PermanentFailure(_) => true,
            _ => false,
        },
        WaitEvent::Closed => true,
        WaitEvent::TimedOut(_) => false,
    }
}

/// How to connect to a broker.
#[derive(Debug)]
pub struct ConnectPlan {
    pub client_id: String,
    pub host: String,
    pub port: u16,
    pub keepalive_secs: u64,
    pub clean_session: bool,
    /// What the broker publishes for us when the connection breaks.
    pub last_will: Publish,
    pub credentials: Option<(String, String)>,
    pub capacity: usize,
}

/// User name and password, if both are set and the name is not empty.
pub open spec fn credentials(cfg: MqttView) -> Option<(Seq<char>, Seq<char>)> {
    match (cfg.username, cfg.password) {
        (Some(u), Some(p)) => if u.len() == 0 {
            None
        } else {
            Some((u, p))
        },
        _ => None,
    }
}

/// The texts of a pair of strings.
pub open spec fn opt_texts(pair: Option<(String, String)>) -> Option<(Seq<char>, Seq<char>)> {
    match pair {
        Some((a, b)) => Some((a@, b@)),
        None => None,
    }
}

/// Plan the connection of `client_id`, whose absence shows as `offline` on
/// `availability_topic`.
pub fn connect_plan(cfg: &MqttConfig, client_id: String, availability_topic: String) -> (out:
    ConnectPlan)
    ensures
        out.client_id == client_id,
        out.host@ == cfg@.host,
        out.port == cfg@.port,
        out.keepalive_secs == if cfg@.keepalive_secs < MIN_KEEPALIVE_SECS {
            MIN_KEEPALIVE_SECS
        } else {
            cfg@.keepalive_secs
        },
        out.clean_session,
        out.last_will@ == text_publish(availability_topic@, PAYLOAD_NOT_AVAILABLE@, true),
        opt_texts(out.credentials) == credentials(cfg@),
        out.capacity == REQUEST_CAPACITY,
{
    let keepalive: u16 = if cfg.keepalive_secs < MIN_KEEPALIVE_SECS {
        MIN_KEEPALIVE_SECS
    } else {
        cfg.keepalive_secs
    };
    let credentials: Option<(String, String)> = match (&cfg.username, &cfg.password) {
        (Some(u), Some(p)) => {
            if u.as_str().is_empty() {
                None
            } else {
                Some((u.clone(), p.clone()))
            }
        },
        _ => None,
    };
    ConnectPlan {
        client_id,
        host: cfg.host.clone(),
        port: cfg.port,
        keepalive_secs: keepalive as u64,
        clean_session: true,
        last_will: Publish::text(availability_topic, PAYLOAD_NOT_AVAILABLE, true),
        credentials,
        capacity: REQUEST_CAPACITY,
    }
}

} // verus!
