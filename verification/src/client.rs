//! Inspecting and managing a running daemon over MQTT.

use crate::config::MqttConfig;
use crate::db::RecordView;
use crate::hass::info_tree;
use crate::json::{
    get_text, get_uint, json_document, json_parse, text_member, tree, uint_member, JsonTree,
};
use crate::mqtt::{
    body_text, clearing, connect_plan, credentials, opt_texts, payload_body, text_publish,
    ConnectPlan, IncomingPublish, Publish, PublishView, MIN_KEEPALIVE_SECS, REQUEST_CAPACITY,
};
use crate::text::{
    chars_of, decimal, decimal_text, has_char, has_prefix, opt_str, opt_text, starts, text_eq,
};
use crate::textmap::{ascending, TextMap};
use crate::topics::{
    availability_topic, availability_topic_text, device_enabled_topic, device_enabled_wildcard,
    device_info_wildcard, enabled_slug, enabled_topic_text, info_topic_text, is_segment,
    lemma_enabled_topic_round_trip, parse_enabled_topic, PAYLOAD_DISABLED, PAYLOAD_ENABLED,
    PAYLOAD_NOT_AVAILABLE,
};
use vstd::prelude::*;
use vstd::string::*;

verus! {

/// A listing ends when nothing has arrived for this long.
pub const IDLE_MILLIS: u64 = 500;

/// A listing takes no longer than this.
pub const HARD_CAP_MILLIS: u128 = 5000;

/// How long a client waits for the broker.
pub const CONNECT_SECS: u64 = 5;

/// A device as a client sees it.
#[derive(Debug, PartialEq, Eq)]
pub struct DeviceSnapshot {
    pub slug: String,
    pub name: String,
    pub unique_id: Option<String>,
    pub bus: u16,
    pub vendor: u16,
    pub product: u16,
    pub version: u16,
    /// `None` if no retained `enabled` topic was seen (device exists
    /// only as an info entry, or was cleared).
    pub enabled: Option<bool>,
}

/// The values in a [`DeviceSnapshot`].
pub struct SnapshotView {
    pub slug: Seq<char>,
    pub name: Seq<char>,
    pub unique_id: Option<Seq<char>>,
    pub bus: u16,
    pub vendor: u16,
    pub product: u16,
    pub version: u16,
    pub enabled: Option<bool>,
}

impl View for DeviceSnapshot {
    type V = SnapshotView;

    open spec fn view(&self) -> SnapshotView {
        SnapshotView {
            slug: self.slug@,
            name: self.name@,
            unique_id: opt_text(self.unique_id),
            bus: self.bus,
            vendor: self.vendor,
            product: self.product,
            version: self.version,
            enabled: self.enabled,
        }
    }
}

impl Clone for DeviceSnapshot {
    fn clone(&self) -> (out: Self)
        ensures
            out@ == self@,
    {
        DeviceSnapshot {
            slug: self.slug.clone(),
            name: self.name.clone(),
            unique_id: self.unique_id.clone(),
            bus: self.bus,
            vendor: self.vendor,
            product: self.product,
            version: self.version,
            enabled: self.enabled,
        }
    }
}

/// The level behind `{prefix}/_devices/` in `topic`, if it is the last.
pub open spec fn info_slug(prefix: Seq<char>, topic: Seq<char>) -> Option<Seq<char>> {
    let head = prefix + "/_devices/"@;
    let rest = topic.skip(head.len() as int);
    if starts(topic, head) && is_segment(rest) {
        Some(rest)
    } else {
        None
    }
}

/// Try to split `{prefix}/_devices/{slug}` back into its slug.
pub fn parse_info_slug<'a>(topic_prefix: &str, topic: &'a str) -> (res: Option<&'a str>)
    ensures
        opt_str(res) == info_slug(topic_prefix@, topic@),
{
    let mut head: String = topic_prefix.to_owned();
    head.append("/_devices/");
    let head = chars_of(head.as_str());
    let all = chars_of(topic);
    if !has_prefix(&all, &head) {
        return None;
    }
    let rest: &'a str = topic.substring_char(head.len(), all.len());
    assert(rest@ =~= topic@.skip(head@.len() as int));
    let level = chars_of(rest);
    if level.len() == 0 || has_char(&level, '/') {
        return None;
    }
    Some(rest)
}

/// What a client has gathered: descriptions and switches, by slug.
pub struct Gathered {
    pub infos: Map<Seq<char>, JsonTree>,
    pub enabled: Map<Seq<char>, bool>,
}

/// Nothing gathered yet.
pub open spec fn nothing() -> Gathered {
    Gathered { infos: Map::empty(), enabled: Map::empty() }
}

/// What has been gathered after one more message.
pub open spec fn gathered_more(prefix: Seq<char>, g: Gathered, msg: PublishView) -> Gathered {
    match info_slug(prefix, msg.topic) {
        Some(slug) => if msg.payload.len() == 0 {
            Gathered { infos: g.infos.remove(slug), ..g }
        } else {
            match json_document(msg.payload) {
                Some(t) => Gathered { infos: g.infos.insert(slug, t), ..g },
                None => g,
            }
        },
        None => match enabled_slug(prefix, msg.topic) {
            Some(slug) => if body_text(msg.payload) == PAYLOAD_ENABLED@ {
                Gathered { enabled: g.enabled.insert(slug, true), ..g }
            } else if body_text(msg.payload) == PAYLOAD_DISABLED@ {
                Gathered { enabled: g.enabled.insert(slug, false), ..g }
            } else {
                Gathered { enabled: g.enabled.remove(slug), ..g }
            },
            None => g,
        },
    }
}

/// What has been gathered after some messages.
pub open spec fn gathered(prefix: Seq<char>, msgs: Seq<PublishView>) -> Gathered
    decreases msgs.len(),
{
    if msgs.len() == 0 {
        nothing()
    } else {
        gathered_more(prefix, gathered(prefix, msgs.drop_last()), msgs.last())
    }
}

/// The values in a list of messages.
pub open spec fn messages(msgs: Seq<IncomingPublish>) -> Seq<PublishView> {
    msgs.map_values(|m: IncomingPublish| m@)
}

/// The number member `key`, its low 16 bits; 0 if there is none.
pub open spec fn short_member(t: JsonTree, key: Seq<char>) -> u16 {
    match uint_member(t, key) {
        Some(n) => (n % 0x1_0000) as u16,
        None => 0,
    }
}

/// A device as read from its description.
pub open spec fn snapshot(slug: Seq<char>, info: JsonTree, enabled: Option<bool>) -> SnapshotView {
    SnapshotView {
        slug,
        name: match text_member(info, "name"@) {
            Some(n) => n,
            None => ""@,
        },
        unique_id: text_member(info, "unique_id"@),
        bus: short_member(info, "bus"@),
        vendor: short_member(info, "vendor"@),
        product: short_member(info, "product"@),
        version: short_member(info, "version"@),
        enabled,
    }
}

/// The switch of `slug`, if one has been gathered.
pub open spec fn switch_of(g: Gathered, slug: Seq<char>) -> Option<bool> {
    if g.enabled.contains_key(slug) {
        Some(g.enabled[slug])
    } else {
        None
    }
}

/// Whether `out` lists, in order of slugs, every device of which a description
/// has been gathered.
pub open spec fn lists(g: Gathered, out: Seq<SnapshotView>) -> bool {
    let slugs = out.map_values(|s: SnapshotView| s.slug);
    &&& ascending(slugs)
    &&& forall|s: Seq<char>| #[trigger] slugs.contains(s) <==> g.infos.contains_key(s)
    &&& forall|i: int|
        0 <= i < out.len() ==> #[trigger] out[i] == snapshot(
            out[i].slug,
            g.infos[out[i].slug],
            switch_of(g, out[i].slug),
        )
}

/// The values in a list of snapshots.
pub open spec fn snapshots(out: Seq<DeviceSnapshot>) -> Seq<SnapshotView> {
    out.map_values(|s: DeviceSnapshot| s@)
}

fn short(v: &serde_json::Value, key: &str) -> (out: u16)
    ensures
        out == short_member(tree(*v), key@),
{
    match get_uint(v, key) {
        Some(n) => (n % 0x1_0000) as u16,
        None => 0,
    }
}

/// A device as read from its description.
pub fn snapshot_from(slug: &str, info: &serde_json::Value, enabled: Option<bool>) -> (out:
    DeviceSnapshot)
    ensures
        out@ == snapshot(slug@, tree(*info), enabled),
{
    let name: String = match get_text(info, "name") {
        Some(n) => n.to_owned(),
        None => "".to_owned(),
    };
    let unique_id: Option<String> = match get_text(info, "unique_id") {
        Some(u) => Some(u.to_owned()),
        None => None,
    };
    DeviceSnapshot {
        slug: slug.to_owned(),
        name,
        unique_id,
        bus: short(info, "bus"),
        vendor: short(info, "vendor"),
        product: short(info, "product"),
        version: short(info, "version"),
        enabled,
    }
}

/// The retained messages that a listing has seen.
#[derive(Debug)]
struct Listing {
    infos: TextMap<serde_json::Value>,
    enabled: TextMap<bool>,
}

impl Listing {
    spec fn wf(self) -> bool {
        self.infos.wf() && self.enabled.wf()
    }

    spec fn content(self) -> Gathered {
        Gathered {
            infos: self.infos@.map_values(|v: serde_json::Value| tree(v)),
            enabled: self.enabled@,
        }
    }

    fn absorb(&mut self, topic_prefix: &str, msg: &IncomingPublish)
        requires
            old(self).wf(),
        ensures
            final(self).wf(),
            final(self).content() == gathered_more(topic_prefix@, old(self).content(), msg@),
    {
        let ghost before = self.content();
        if let Some(slug) = parse_info_slug(topic_prefix, msg.topic.as_str()) {
            if msg.payload.len() == 0 {
                self.infos.remove(slug);
                assert(self.content().infos =~= before.infos.remove(slug@));
            } else if let Some(v) = json_parse(&msg.payload) {
                self.infos.insert(slug, v);
                assert(self.content().infos =~= before.infos.insert(slug@, tree(v)));
            }
        } else if let Some(slug) = parse_enabled_topic(topic_prefix, msg.topic.as_str()) {
            let body = payload_body(&msg.payload);
            if text_eq(body.as_str(), PAYLOAD_ENABLED) {
                self.enabled.insert(slug, true);
            } else if text_eq(body.as_str(), PAYLOAD_DISABLED) {
                self.enabled.insert(slug, false);
            } else {
                self.enabled.remove(slug);
            }
        }
    }

    fn finish(&self) -> (out: Vec<DeviceSnapshot>)
        requires
            self.wf(),
        ensures
            lists(self.content(), snapshots(out@)),
    {
        let ghost keys = self.infos.keys();
        let mut out: Vec<DeviceSnapshot> = Vec::new();
        let mut i: usize = 0;
        while i < self.infos.len()
            invariant
                self.wf(),
                keys == self.infos.keys(),
                i <= keys.len(),
                out@.len() == i,
                forall|j: int|
                    0 <= j < i ==> (#[trigger] out@[j])@ == snapshot(
                        keys[j],
                        self.content().infos[keys[j]],
                        switch_of(self.content(), keys[j]),
                    ),
            decreases keys.len() - i,
        {
            let (slug, info) = self.infos.entry(i);
            let enabled: Option<bool> = match self.enabled.get(slug.as_str()) {
                Some(on) => Some(*on),
                None => None,
            };
            out.push(snapshot_from(slug.as_str(), info, enabled));
            i += 1;
        }
        proof {
            self.infos.lemma_keys();
            let views = snapshots(out@);
            assert forall|j: int| 0 <= j < views.len() implies #[trigger] views[j] == snapshot(
                views[j].slug,
                self.content().infos[views[j].slug],
                switch_of(self.content(), views[j].slug),
            ) by {
                assert(views[j] == out@[j]@);
            }
            let slugs = views.map_values(|s: SnapshotView| s.slug);
            assert(slugs =~= keys) by {
                assert forall|j: int| 0 <= j < slugs.len() implies slugs[j] == keys[j] by {
                    assert(views[j] == out@[j]@);
                }
            }
            assert forall|s: Seq<char>| #[trigger] slugs.contains(s) <==> self.content().infos
                .contains_key(s) by {
                assert(self.infos@.contains_key(s) <==> keys.contains(s));
            }
        }
        out
    }
}

/// How long a listing that began `elapsed_millis` ago waits for the next message:
/// until the line has been idle for long enough, but not past the hard cap.
pub fn next_wait_millis(elapsed_millis: u128) -> (out: Option<u64>)
    ensures
        match out {
            Some(wait) => {
                &&& elapsed_millis < HARD_CAP_MILLIS
                &&& wait == if HARD_CAP_MILLIS - elapsed_millis < IDLE_MILLIS {
                    HARD_CAP_MILLIS - elapsed_millis
                } else {
                    IDLE_MILLIS as int
                }
            },
            None => elapsed_millis >= HARD_CAP_MILLIS,
        },
{
    if elapsed_millis >= HARD_CAP_MILLIS {
        return None;
    }
    let left: u128 = HARD_CAP_MILLIS - elapsed_millis;
    if left < IDLE_MILLIS as u128 {
        Some(left as u64)
    } else {
        Some(IDLE_MILLIS)
    }
}

/// Talks to the daemon that owns a topic prefix.
#[derive(Debug)]
pub struct Client {
    topic_prefix: String,
}

impl View for Client {
    type V = Seq<char>;

    closed spec fn view(&self) -> Seq<char> {
        self.topic_prefix@
    }
}

impl Client {
    /// A client for the daemon at `mqtt`, and how it connects from the process
    /// `pid`. Its last will goes to a topic that nobody reads: the daemon's
    /// remains authoritative.
    pub fn connect(mqtt: &MqttConfig, pid: u32) -> (out: (Client, ConnectPlan))
        ensures
            out.0@ == mqtt@.topic_prefix,
            out.1.client_id@ == mqtt@.client_id_prefix + "-cli-"@ + decimal(pid as nat),
            out.1.host@ == mqtt@.host,
            out.1.port == mqtt@.port,
            out.1.keepalive_secs == if mqtt@.keepalive_secs < MIN_KEEPALIVE_SECS {
                MIN_KEEPALIVE_SECS
            } else {
                mqtt@.keepalive_secs
            },
            out.1.clean_session,
            out.1.last_will@ == text_publish(
                availability_topic_text(mqtt@.topic_prefix) + "/cli-lwt"@,
                PAYLOAD_NOT_AVAILABLE@,
                true,
            ),
            opt_texts(out.1.credentials) == credentials(mqtt@),
            out.1.capacity == REQUEST_CAPACITY,
    {
        let mut client_id: String = mqtt.client_id_prefix.clone();
        client_id.append("-cli-");
        client_id.append(decimal_text(pid as u128).as_str());
        let mut will_topic = availability_topic(mqtt.topic_prefix.as_str());
        will_topic.append("/cli-lwt");
        (
            Client { topic_prefix: mqtt.topic_prefix.clone() },
            connect_plan(mqtt, client_id, will_topic),
        )
    }

    /// What a listing subscribes to: the info topics and the enabled topics.
    pub fn subscriptions(&self) -> (out: Vec<String>)
        ensures
            crate::text::texts(out@) == seq![
                info_topic_text(self@, "+"@),
                enabled_topic_text(self@, "+"@),
            ],
    {
        let out = vec![
            device_info_wildcard(self.topic_prefix.as_str()),
            device_enabled_wildcard(self.topic_prefix.as_str()),
        ];
        assert(crate::text::texts(out@) =~= seq![
            info_topic_text(self@, "+"@),
            enabled_topic_text(self@, "+"@),
        ]);
        out
    }

    /// A per-slug snapshot of the devices, out of the messages that arrived on
    /// the subscribed topics.
    pub fn list_devices(&self, msgs: &Vec<IncomingPublish>) -> (out: Vec<DeviceSnapshot>)
        ensures
            lists(gathered(self@, messages(msgs@)), snapshots(out@)),
    {
        let mut listing = Listing { infos: TextMap::new(), enabled: TextMap::new() };
        let mut i: usize = 0;
        proof {
            assert(listing.content().infos =~= nothing().infos);
            assert(messages(msgs@).take(0) =~= Seq::<PublishView>::empty());
        }
        while i < msgs.len()
            invariant
                listing.wf(),
                i <= msgs@.len(),
                listing.content() == gathered(self@, messages(msgs@).take(i as int)),
            decreases msgs@.len() - i,
        {
            listing.absorb(self.topic_prefix.as_str(), &msgs[i]);
            i += 1;
            proof {
                let all = messages(msgs@);
                assert(all.take(i as int).drop_last() =~= all.take(i - 1));
                assert(all.take(i as int).last() == msgs@[i - 1]@);
            }
        }
        assert(messages(msgs@).take(i as int) =~= messages(msgs@));
        listing.finish()
    }

    /// The message that enables a device.
    pub fn enable_device(&self, slug: &str) -> (out: Publish)
        ensures
            out@ == text_publish(enabled_topic_text(self@, slug@), PAYLOAD_ENABLED@, true),
    {
        Publish::text(
            device_enabled_topic(self.topic_prefix.as_str(), slug),
            PAYLOAD_ENABLED,
            true,
        )
    }

    /// The message that disables a device.
    pub fn disable_device(&self, slug: &str) -> (out: Publish)
        ensures
            out@ == text_publish(enabled_topic_text(self@, slug@), PAYLOAD_DISABLED@, true),
    {
        Publish::text(
            device_enabled_topic(self.topic_prefix.as_str(), slug),
            PAYLOAD_DISABLED,
            true,
        )
    }

    /// The message that removes a device: empty retained on
    /// `_devices/<slug>/enabled`. The running daemon interprets this as a
    /// remove command and clears the info topic and HA discovery; if the
    /// daemon isn't running, the next start will see the cleared `enabled`
    /// topic and remove the entry then.
    pub fn remove_device(&self, slug: &str) -> (out: Publish)
        ensures
            out@ == clearing(enabled_topic_text(self@, slug@)),
    {
        Publish::empty_retained(device_enabled_topic(self.topic_prefix.as_str(), slug))
    }
}

/// An info topic parses to `slug` exactly when it was built for `slug` and
/// `slug` is one topic level.
pub proof fn lemma_info_topic_round_trip(prefix: Seq<char>, topic: Seq<char>, slug: Seq<char>)
    ensures
        info_slug(prefix, topic) == Some(slug) <==> is_segment(slug) && topic == info_topic_text(
            prefix,
            slug,
        ),
{
    let head = prefix + "/_devices/"@;
    let rest = topic.skip(head.len() as int);
    if info_slug(prefix, topic) == Some(slug) {
        assert(topic =~= head + rest);
    }
    if is_segment(slug) && topic == info_topic_text(prefix, slug) {
        assert(topic.take(head.len() as int) =~= head);
        assert(rest =~= slug);
    }
}

/// No topic is both an info topic and an enabled topic.
pub proof fn lemma_info_and_enabled_disjoint(prefix: Seq<char>, topic: Seq<char>)
    ensures
        info_slug(prefix, topic) is None || enabled_slug(prefix, topic) is None,
{
    if info_slug(prefix, topic) is Some && enabled_slug(prefix, topic) is Some {
        let head = prefix + "/_devices/"@;
        let rest = topic.skip(head.len() as int);
        let tail = "/enabled"@;
        reveal_strlit("/enabled");
        let n = rest.len() - tail.len();
        assert(rest.skip(n)[0] == '/');
        assert(rest[n] == '/');
        assert(rest.contains('/'));
    }
}

/// What a description says of a device is what a client reads from it.
pub proof fn lemma_info_read_back(r: RecordView, enabled: Option<bool>)
    ensures
        snapshot(r.slug, info_tree(r), enabled) == (SnapshotView {
            slug: r.slug,
            name: r.label(),
            unique_id: r.unique_id,
            bus: r.bus,
            vendor: r.vendor,
            product: r.product,
            version: r.version,
            enabled,
        }),
        text_member(info_tree(r), "slug"@) == Some(r.slug),
{
    reveal_strlit("slug");
    reveal_strlit("name");
    reveal_strlit("bus");
    reveal_strlit("vendor");
    reveal_strlit("product");
    reveal_strlit("version");
    reveal_strlit("unique_id");
    assert("slug"@[0] == 's');
    assert("name"@[0] == 'n');
    assert("bus"@[0] == 'b');
    assert("product"@[0] == 'p');
    assert("unique_id"@[0] == 'u');
    assert("vendor"@.len() == 6 && "version"@.len() == 7);
    assert("vendor"@[0] == 'v' && "version"@[0] == 'v');
}

/// A payload that is neither a description nor the clearing of one.
pub open spec fn unreadable(payload: Seq<u8>) -> bool {
    payload.len() > 0 && json_document(payload) is None
}

/// The last description of a device decides what a listing shows of it, whatever
/// unreadable message comes after it.
pub proof fn lemma_last_info_decides(
    prefix: Seq<char>,
    msgs: Seq<PublishView>,
    i: int,
    slug: Seq<char>,
    info: JsonTree,
)
    requires
        is_segment(slug),
        0 <= i < msgs.len(),
        msgs[i].topic == info_topic_text(prefix, slug),
        msgs[i].payload.len() > 0,
        json_document(msgs[i].payload) == Some(info),
        forall|k: int|
            i < k < msgs.len() && (#[trigger] msgs[k]).topic == info_topic_text(prefix, slug)
                ==> unreadable(msgs[k].payload),
    ensures
        gathered(prefix, msgs).infos.contains_key(slug),
        gathered(prefix, msgs).infos[slug] == info,
    decreases msgs.len(),
{
    let last = msgs.last();
    lemma_info_topic_round_trip(prefix, last.topic, slug);
    if i < msgs.len() - 1 {
        let rest = msgs.drop_last();
        assert(rest[i] == msgs[i]);
        assert forall|k: int|
            i < k < rest.len() && (#[trigger] rest[k]).topic == info_topic_text(
                prefix,
                slug,
            ) implies unreadable(rest[k].payload) by {
            assert(rest[k] == msgs[k]);
        }
        lemma_last_info_decides(prefix, rest, i, slug, info);
        assert(last.topic == info_topic_text(prefix, slug) ==> unreadable(last.payload));
    }
}

/// The last word on a device's enabled topic decides what a listing shows of its
/// switch.
pub proof fn lemma_last_switch_decides(
    prefix: Seq<char>,
    msgs: Seq<PublishView>,
    i: int,
    slug: Seq<char>,
    on: bool,
)
    requires
        is_segment(slug),
        0 <= i < msgs.len(),
        msgs[i].topic == enabled_topic_text(prefix, slug),
        body_text(msgs[i].payload) == if on {
            PAYLOAD_ENABLED@
        } else {
            PAYLOAD_DISABLED@
        },
        forall|k: int|
            i < k < msgs.len() ==> (#[trigger] msgs[k]).topic != enabled_topic_text(prefix, slug),
    ensures
        switch_of(gathered(prefix, msgs), slug) == Some(on),
    decreases msgs.len(),
{
    let last = msgs.last();
    lemma_enabled_topic_round_trip(prefix, last.topic, slug);
    lemma_info_and_enabled_disjoint(prefix, last.topic);
    reveal_strlit("on");
    reveal_strlit("off");
    assert("on"@.len() != "off"@.len());
    if i < msgs.len() - 1 {
        let rest = msgs.drop_last();
        assert(rest[i] == msgs[i]);
        assert forall|k: int| i < k < rest.len() implies (#[trigger] rest[k]).topic
            != enabled_topic_text(prefix, slug) by {
            assert(rest[k] == msgs[k]);
        }
        lemma_last_switch_decides(prefix, rest, i, slug, on);
        assert(last.topic != enabled_topic_text(prefix, slug));
    }
}

/// A device whose description was cleared last is not listed, whatever unreadable
/// message comes after that.
pub proof fn lemma_cleared_not_listed(
    prefix: Seq<char>,
    msgs: Seq<PublishView>,
    i: int,
    slug: Seq<char>,
)
    requires
        is_segment(slug),
        0 <= i < msgs.len(),
        msgs[i].topic == info_topic_text(prefix, slug),
        msgs[i].payload.len() == 0,
        forall|k: int|
            i < k < msgs.len() && (#[trigger] msgs[k]).topic == info_topic_text(prefix, slug)
                ==> unreadable(msgs[k].payload),
    ensures
        !gathered(prefix, msgs).infos.contains_key(slug),
    decreases msgs.len(),
{
    let last = msgs.last();
    lemma_info_topic_round_trip(prefix, last.topic, slug);
    if i < msgs.len() - 1 {
        let rest = msgs.drop_last();
        assert(rest[i] == msgs[i]);
        assert forall|k: int|
            i < k < rest.len() && (#[trigger] rest[k]).topic == info_topic_text(
                prefix,
                slug,
            ) implies unreadable(rest[k].payload) by {
            assert(rest[k] == msgs[k]);
        }
        lemma_cleared_not_listed(prefix, rest, i, slug);
        assert(last.topic == info_topic_text(prefix, slug) ==> unreadable(last.payload));
    }
}

} // verus!
