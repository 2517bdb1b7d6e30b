//! Messages, and the connection that carries them.

use crate::behaviour::words::{core_of, lemma_core};
use crate::config::MqttConfig;
use crate::mqtt::{
    connect_plan, is_permanent, payload_body, poll_step, wait_for_permanent_failure, wait_ready,
    ConnState, ConnectPlan, ConnectionFailure, PollAction, PollEvent, Publish, WaitEvent,
};
use vstd::prelude::*;
use vstd::string::*;
use vstd::utf8::{decode_utf8, encode_utf8, valid_utf8};

verus! {

/// A text travels as UTF-8, to the topic it is for.
pub proof fn law_text_message(topic: String, body: &str, retain: bool, out: Publish)
    requires
        call_ensures(Publish::text, (topic, body, retain), out),
    ensures
        out.topic@ == topic@,
        out.payload@ == encode_utf8(body@),
        out.retain == retain,
{
    assert(out@.topic == topic@);
}

/// A topic is cleared by a retained message without content.
pub proof fn law_clearing_message(topic: String, out: Publish)
    requires
        call_ensures(Publish::empty_retained, (topic,), out),
    ensures
        out.topic@ == topic@,
        out.payload@.len() == 0,
        out.retain,
{
    assert(out@.topic == topic@);
}

/// What a payload says is its text without the white space around it; one that is
/// not UTF-8 says nothing.
pub proof fn law_payload_body(payload: Vec<u8>, out: String)
    requires
        call_ensures(payload_body, (&payload,), out),
    ensures
        valid_utf8(payload@) ==> exists|i: int, j: int| #[trigger]
            core_of(decode_utf8(payload@), out@, i, j),
        !valid_utf8(payload@) ==> out@.len() == 0,
{
    if valid_utf8(payload@) {
        let (i, j) = lemma_core(decode_utf8(payload@));
        assert(core_of(decode_utf8(payload@), out@, i, j));
    } else {
        reveal_strlit("");
        let (i, j) = lemma_core(""@);
    }
}

/// Only a clear refusal is final.
pub proof fn law_is_permanent(e: ConnectionFailure, yes: bool)
    requires
        call_ensures(is_permanent, (e,), yes),
    ensures
        yes <==> e == ConnectionFailure::ConnectionRefused || e == ConnectionFailure::NotConnAck
            || e == ConnectionFailure::Tls,
{
}

/// What the driver of the connection does: it announces that it is connected,
/// hands on what arrives, retries what may pass after two seconds and says
/// meanwhile that it is connecting, gives up with the reason on what will not
/// pass, and ends quietly once it is to shut down.
pub proof fn law_poll(event: PollEvent, shutting_down: bool, out: PollAction)
    requires
        call_ensures(poll_step, (event, shutting_down), out),
    ensures
        event is ConnAck ==> (out matches PollAction::Announce(s) && s is Connected),
        event matches PollEvent::Incoming(m) ==> (out matches PollAction::Forward(n) && n == m),
        event is Other ==> out is Continue,
        event is Failed && shutting_down ==> out is Stop,
        event matches PollEvent::Failed { kind, text } ==> !shutting_down ==> {
            let refused = kind == ConnectionFailure::ConnectionRefused || kind
                == ConnectionFailure::NotConnAck || kind == ConnectionFailure::Tls;
            &&& refused ==> (out matches PollAction::StopWith(s)
                && (s matches ConnState::PermanentFailure(reason) && reason@ == text@))
            &&& !refused ==> (out matches PollAction::Retry { state, secs } && state is Connecting
                && secs == 2)
        },
{
}

/// Waiting for the connection ends once it is there, once it has failed for good,
/// once nobody drives it any more, and once the time is over; it goes on while it
/// is being made.
pub proof fn law_wait_ready(event: WaitEvent, out: Option<Result<(), String>>)
    requires
        call_ensures(wait_ready, (&event,), out),
    ensures
        match event {
            WaitEvent::State(ConnState::Connected) => out matches Some(Ok(_)),
            WaitEvent::State(ConnState::Connecting) => out is None,
            WaitEvent::State(ConnState::PermanentFailure(reason)) => out matches Some(Err(e)) && e@
                == "MQTT connection failed: "@ + reason@,
            WaitEvent::Closed => out matches Some(Err(e)) && e@
                == "MQTT eventloop terminated before connecting"@,
            WaitEvent::TimedOut(span) => out matches Some(Err(e)) && e@ == "timed out after "@
                + span@ + " waiting for MQTT CONNACK"@,
        },
{
}

/// The daemon ends when the connection has failed for good, or when nobody drives
/// it any more.
pub proof fn law_wait_for_failure(event: WaitEvent, done: bool)
    requires
        call_ensures(wait_for_permanent_failure, (&event,), done),
    ensures
        match event {
            WaitEvent::State(ConnState::PermanentFailure(_)) => done,
            WaitEvent::State(_) => !done,
            WaitEvent::Closed => done,
            WaitEvent::TimedOut(_) => !done,
        },
{
}

/// How a connection is made: to the broker of the settings, with a keepalive of at
/// least five seconds, a clean session, and `offline` left behind. It logs in only
/// with a user name that is not empty and a password.
pub proof fn law_connect_plan(
    cfg: MqttConfig,
    client_id: String,
    topic: String,
    out: ConnectPlan,
)
    requires
        call_ensures(connect_plan, (&cfg, client_id, topic), out),
    ensures
        out.client_id@ == client_id@,
        out.host@ == cfg.host@,
        out.port == cfg.port,
        out.keepalive_secs >= 5,
        out.keepalive_secs >= cfg.keepalive_secs,
        out.keepalive_secs == 5 || out.keepalive_secs == cfg.keepalive_secs,
        out.clean_session,
        out.capacity == 100,
        out.last_will.topic@ == topic@,
        out.last_will.payload@ == encode_utf8("offline"@),
        out.last_will.retain,
        match (cfg.username, cfg.password) {
            (Some(u), Some(p)) if u@.len() > 0 => out.credentials matches Some((v, q)) && v@ == u@
                && q@ == p@,
            _ => out.credentials is None,
        },
{
    assert(out.last_will@.topic == topic@);
    assert(crate::mqtt::opt_texts(out.credentials) == crate::mqtt::credentials(cfg@));
}

} // verus!
