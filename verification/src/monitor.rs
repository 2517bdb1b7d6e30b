//! One device's key events: what is published and what the coordinator is told.

use crate::config::{HassView, MqttView};
use crate::coordinator::{CoordinatorMsg, MsgView};
use crate::db::RecordView;
use crate::hass::{
    announced_id, announced_slug, announced_slugs, discovery_tree, event_payload, event_text, key_code_debug,
    ids_of, key_code_text, key_label, key_name_from, lemma_announced_plain,
    lemma_trigger_pair_per_key, trigger_tree,
};
use crate::json::JsonTree;
use crate::mqtt::{text_publish, Publish, PublishView};
use crate::slug::{key_slug, key_stem, slug};
use crate::topics::{action_topic_text, Action};
use vstd::prelude::*;
use vstd::string::*;

verus! {

pub const ENODEV: i32 = 19;

pub const ENXIO: i32 = 6;

/// Classify an evdev key event's `value` field.
///
/// evdev encodes a key event's phase as: `0` = release, `1` = press,
/// `2` = autorepeat. HA device triggers are momentary events with no
/// concept of "still held", so autorepeat is ignored.
pub fn evdev_value_to_action(value: i32) -> (out: Option<Action>)
    ensures
        out == phase(value),
{
    match value {
        1 => Some(Action::Press),
        0 => Some(Action::Release),
        _ => None,
    }
}

/// What the `value` of a key event stands for.
pub open spec fn phase(value: i32) -> Option<Action> {
    if value == 1 {
        Some(Action::Press)
    } else if value == 0 {
        Some(Action::Release)
    } else {
        None
    }
}

/// Whether an error with this OS code means that the device is gone.
pub fn is_disconnect(errno: Option<i32>) -> (yes: bool)
    ensures
        yes == (errno == Some(ENODEV) || errno == Some(ENXIO)),
{
    match errno {
        Some(e) => e == ENODEV || e == ENXIO,
        None => false,
    }
}

/// What a monitor sees.
#[derive(Debug)]
pub enum DeviceEvent {
    /// The device could not be opened.
    OpenFailed,
    /// The device gives no event stream.
    StreamFailed,
    /// The coordinator wants the monitor to exit.
    Shutdown,
    /// A key event.
    Key { code: u16, value: i32 },
    /// Any other event.
    Other,
    /// Reading failed with this OS code.
    ReadError { errno: Option<i32> },
    /// The stream ended.
    Ended,
}

/// What a monitor does about it: publish, then tell the coordinator, then exit or
/// go on.
#[derive(Debug)]
pub struct DeviceStep {
    pub publish: Option<Publish>,
    pub tell: Option<CoordinatorMsg>,
    pub exit: bool,
    /// Whether an exit is an ordinary one, not an error.
    pub ordinary: bool,
}

pub open spec fn opt_publish(p: Option<Publish>) -> Option<PublishView> {
    match p {
        Some(p) => Some(p@),
        None => None,
    }
}

pub open spec fn opt_msg(m: Option<CoordinatorMsg>) -> Option<MsgView> {
    match m {
        Some(m) => Some(m@),
        None => None,
    }
}

/// The event that the key `code`, which `evdev` shows as `shown`, publishes.
pub open spec fn key_publish(topic: Seq<char>, code: u16, shown: Seq<char>, value: i32) -> Option<
    PublishView,
> {
    match phase(value) {
        Some(action) => Some(
            text_publish(topic, event_text(slug(key_stem(key_label(code, shown))), action), false),
        ),
        None => None,
    }
}

/// A key event, given what `evdev` shows for the key. Autorepeat does nothing.
pub fn key_event(action_topic: &str, slug: &str, code: u16, shown: &str, value: i32) -> (out:
    DeviceStep)
    ensures
        opt_publish(out.publish) == key_publish(action_topic@, code, shown@, value),
        opt_msg(out.tell) == match phase(value) {
            Some(_) => Some(MsgView::KeyObserved { slug: slug@, code }),
            None => None,
        },
        !out.exit,
        out.ordinary,
{
    match evdev_value_to_action(value) {
        Some(action) => {
            let kslug = key_slug(key_name_from(code, shown.to_owned()).as_str());
            let body = event_payload(kslug.as_str(), action);
            DeviceStep {
                publish: Some(Publish::text(action_topic.to_owned(), body.as_str(), false)),
                tell: Some(CoordinatorMsg::KeyObserved { slug: slug.to_owned(), code }),
                exit: false,
                ordinary: true,
            }
        },
        None => DeviceStep { publish: None, tell: None, exit: false, ordinary: true },
    }
}

/// What a monitor publishes for an event.
pub open spec fn step_publish(topic: Seq<char>, event: DeviceEvent) -> Option<PublishView> {
    match event {
        DeviceEvent::Key { code, value } => key_publish(topic, code, key_code_text(code), value),
        _ => None,
    }
}

/// What a monitor tells the coordinator about an event. It reports that its
/// device is gone, but not that it was asked to exit.
pub open spec fn step_tell(slug: Seq<char>, event: DeviceEvent) -> Option<MsgView> {
    match event {
        DeviceEvent::OpenFailed
        | DeviceEvent::StreamFailed
        | DeviceEvent::ReadError { .. }
        | DeviceEvent::Ended => Some(MsgView::DeviceDisconnected { slug }),
        DeviceEvent::Key { code, value } => match phase(value) {
            Some(_) => Some(MsgView::KeyObserved { slug, code }),
            None => None,
        },
        DeviceEvent::Shutdown | DeviceEvent::Other => None,
    }
}

/// Drive one device's event stream by one event. Exits when:
/// - the device disappears (ENODEV / stream end): tells the coordinator
///   `DeviceDisconnected` first.
/// - it was asked to: does NOT tell; the coordinator already knows.
pub fn run_device(action_topic: &str, slug: &str, event: &DeviceEvent) -> (out: DeviceStep)
    ensures
        opt_publish(out.publish) == step_publish(action_topic@, *event),
        opt_msg(out.tell) == step_tell(slug@, *event),
        out.exit == !(event is Key || event is Other),
        out.ordinary == match *event {
            DeviceEvent::OpenFailed | DeviceEvent::StreamFailed => false,
            DeviceEvent::ReadError { errno } => errno == Some(ENODEV) || errno == Some(ENXIO),
            _ => true,
        },
{
    let gone = Some(CoordinatorMsg::DeviceDisconnected { slug: slug.to_owned() });
    match event {
        DeviceEvent::OpenFailed | DeviceEvent::StreamFailed => DeviceStep {
            publish: None,
            tell: gone,
            exit: true,
            ordinary: false,
        },
        DeviceEvent::Shutdown => DeviceStep {
            publish: None,
            tell: None,
            exit: true,
            ordinary: true,
        },
        DeviceEvent::Key { code, value } => {
            let shown = key_code_debug(*code);
            key_event(action_topic, slug, *code, shown.as_str(), *value)
        },
        DeviceEvent::Other => DeviceStep {
            publish: None,
            tell: None,
            exit: false,
            ordinary: true,
        },
        DeviceEvent::ReadError { errno } => DeviceStep {
            publish: None,
            tell: gone,
            exit: true,
            ordinary: is_disconnect(*errno),
        },
        DeviceEvent::Ended => DeviceStep { publish: None, tell: gone, exit: true, ordinary: true },
    }
}

/// Every event of an observed key has its trigger: the discovery bundle holds a
/// component for this key and action, which waits for that very text on the topic
/// where it is published.
pub proof fn lemma_event_has_trigger(
    r: RecordView,
    mqtt: MqttView,
    hass: HassView,
    code: u16,
    value: i32,
    p: PublishView,
)
    requires
        r.observed_keys.contains(code),
        step_publish(
            action_topic_text(mqtt.topic_prefix, r.slug),
            DeviceEvent::Key { code, value },
        ) == Some(p),
    ensures
        ({
            let kslug = announced_slug(code);
            let id = announced_id(r.observed_keys, code);
            let action = phase(value)->0;
            let text = event_text(kslug, action);
            let topic = action_topic_text(mqtt.topic_prefix, r.slug);
            let bundle = discovery_tree(r, announced_slugs(r.observed_keys), mqtt, hass);
            &&& p == text_publish(topic, text, false)
            &&& bundle.member("cmps"@) matches Some(parts)
            &&& parts.member(event_text(id, action)) == Some(trigger_tree(id, kslug, action, topic))
            &&& trigger_tree(id, kslug, action, topic).member("payload"@) == Some(
                JsonTree::Text(text),
            )
            &&& trigger_tree(id, kslug, action, topic).member("topic"@) == Some(
                JsonTree::Text(topic),
            )
        }),
{
    let kslugs = announced_slugs(r.observed_keys);
    let i = choose|i: int| 0 <= i < r.observed_keys.len() && r.observed_keys[i] == code;
    assert(kslugs[i] == announced_slug(code));
    let action = phase(value)->0;
    lemma_announced_plain(r.observed_keys);
    lemma_trigger_pair_per_key(r, kslugs, mqtt, hass);
    let ids = ids_of(r.observed_keys, kslugs);
    assert(event_text(ids[i], action) == event_text(announced_id(r.observed_keys, code), action));
    reveal_strlit("topic");
    reveal_strlit("payload");
    assert("topic"@.len() == 5 && "payload"@.len() == 7);
}

} // verus!
