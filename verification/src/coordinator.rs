//! The coordinator: what the daemon does about devices, keys and commands.

use crate::config::{HassConfig, HassView, MqttConfig, MqttView};
use crate::db::{
    after_sighting, fresh_record, lemma_lookup_push, lemma_lookup_taken, lemma_new_slug_free,
    lookup, match_index, sighted_slug, slug_index, taken, without, Database, DeviceRecord,
    MatchOutcome, RecordView,
};
use crate::discovery::{DeviceIdentity, IdentityView};
use crate::hass::{
    announced_slugs, device_info_payload, discovery_payload, discovery_tree, info_tree,
};
use crate::json::json_text;
use crate::mqtt::{clearing, text_publish, IncomingPublish, Publish, PublishView};
use crate::text::{
    lemma_text_order, text_eq, text_lt, trim, trimmed, utf8_content, utf8_text,
};
use crate::textmap::TextMap;
use crate::topics::{
    action_topic, action_topic_text, device_discovery_topic, device_enabled_topic,
    device_identifier, device_info_topic, discovery_topic_text, enabled_slug, enabled_topic_text,
    identifier_text, info_topic_text, parse_enabled_topic, PAYLOAD_DISABLED, PAYLOAD_ENABLED,
};
use vstd::prelude::*;
use vstd::string::*;

verus! {

/// Everything the coordinator's tasks send back to it.
#[derive(Debug)]
pub enum CoordinatorMsg {
    /// A live `/dev/input/event*` device was opened. Coordinator decides
    /// whether it's a known record or a new one, persists, and (if
    /// enabled) starts the monitor.
    DeviceConnected(DeviceIdentity),
    /// The monitor task for `slug` exited because the device went
    /// away (ENODEV, stream end). Coordinator drops the connected /
    /// monitored slots so a re-plug can re-attach.
    DeviceDisconnected { slug: String },
    /// A key event arrived for `slug`. If new, add to DB and republish
    /// info+discovery.
    KeyObserved { slug: String, code: u16 },
    /// Externally-triggered (CLI or HA switch). Updates DB enabled
    /// state and starts/stops the monitor.
    EnableCommand { slug: String, on: bool },
    /// Drop the record entirely, clear retained MQTT, abort monitor.
    RemoveCommand { slug: String },
}

/// The values in a [`CoordinatorMsg`].
pub enum MsgView {
    DeviceConnected(IdentityView),
    DeviceDisconnected { slug: Seq<char> },
    KeyObserved { slug: Seq<char>, code: u16 },
    EnableCommand { slug: Seq<char>, on: bool },
    RemoveCommand { slug: Seq<char> },
}

impl View for CoordinatorMsg {
    type V = MsgView;

    open spec fn view(&self) -> MsgView {
        match *self {
            CoordinatorMsg::DeviceConnected(id) => MsgView::DeviceConnected(id@),
            CoordinatorMsg::DeviceDisconnected { slug } => MsgView::DeviceDisconnected {
                slug: slug@,
            },
            CoordinatorMsg::KeyObserved { slug, code } => MsgView::KeyObserved { slug: slug@, code },
            CoordinatorMsg::EnableCommand { slug, on } => MsgView::EnableCommand { slug: slug@, on },
            CoordinatorMsg::RemoveCommand { slug } => MsgView::RemoveCommand { slug: slug@ },
        }
    }
}

/// What the coordinator asks of the world around it, in the order in which it
/// is to happen. A failed effect is logged and does not stop the ones behind it.
#[derive(Debug)]
pub enum Effect {
    /// Write the database to disk.
    Persist,
    /// Send a message.
    Publish(Publish),
    /// Start the monitor of `slug`, which publishes to `action_topic`.
    StartMonitor { slug: String, action_topic: String, identity: DeviceIdentity },
    /// Ask the monitor of `slug` to exit, and abort it.
    StopMonitor { slug: String },
    /// Let go of the monitor of `slug`, which has ended by itself.
    ReleaseMonitor { slug: String },
}

/// The values in an [`Effect`].
pub enum EffectView {
    Persist,
    Publish(PublishView),
    StartMonitor { slug: Seq<char>, action_topic: Seq<char>, identity: IdentityView },
    StopMonitor { slug: Seq<char> },
    ReleaseMonitor { slug: Seq<char> },
}

impl View for Effect {
    type V = EffectView;

    open spec fn view(&self) -> EffectView {
        match *self {
            Effect::Persist => EffectView::Persist,
            Effect::Publish(p) => EffectView::Publish(p@),
            Effect::StartMonitor { slug, action_topic, identity } => EffectView::StartMonitor {
                slug: slug@,
                action_topic: action_topic@,
                identity: identity@,
            },
            Effect::StopMonitor { slug } => EffectView::StopMonitor { slug: slug@ },
            Effect::ReleaseMonitor { slug } => EffectView::ReleaseMonitor { slug: slug@ },
        }
    }
}

/// The values in a list of effects.
pub open spec fn effects(out: Seq<Effect>) -> Seq<EffectView> {
    out.map_values(|e: Effect| e@)
}

/// The state of the coordinator.
pub struct CoordView {
    pub db: Seq<RecordView>,
    pub mqtt: MqttView,
    pub hass: HassView,
    /// The devices that are plugged in, by slug.
    pub connected: Map<Seq<char>, IdentityView>,
    /// The slugs whose monitor runs.
    pub monitored: Set<Seq<char>>,
}

/// The retained message that describes a device.
pub open spec fn info_effect(c: CoordView, r: RecordView) -> EffectView {
    EffectView::Publish(
        PublishView {
            topic: info_topic_text(c.mqtt.topic_prefix, r.slug),
            payload: json_text(info_tree(r)),
            retain: true,
        },
    )
}

/// The word for whether a device is enabled.
pub open spec fn switch_word(on: bool) -> Seq<char> {
    if on {
        PAYLOAD_ENABLED@
    } else {
        PAYLOAD_DISABLED@
    }
}

/// The retained message that mirrors whether a device is enabled.
pub open spec fn mirror_effect(c: CoordView, r: RecordView) -> EffectView {
    EffectView::Publish(
        text_publish(
            enabled_topic_text(c.mqtt.topic_prefix, r.slug),
            switch_word(r.enabled),
            true,
        ),
    )
}

/// The topic of a device's discovery bundle.
pub open spec fn bundle_topic(c: CoordView, slug: Seq<char>) -> Seq<char> {
    discovery_topic_text(c.hass.discovery_prefix, identifier_text(c.mqtt.topic_prefix, slug))
}

/// The retained discovery bundle of a device, unless discovery is off.
pub open spec fn discovery_effects(c: CoordView, r: RecordView) -> Seq<EffectView> {
    if c.hass.enabled {
        seq![
            EffectView::Publish(
                PublishView {
                    topic: bundle_topic(c, r.slug),
                    payload: json_text(
                        discovery_tree(r, announced_slugs(r.observed_keys), c.mqtt, c.hass),
                    ),
                    retain: true,
                },
            ),
        ]
    } else {
        Seq::empty()
    }
}

/// Everything that is published about a device.
pub open spec fn announcement(c: CoordView, r: RecordView) -> Seq<EffectView> {
    seq![info_effect(c, r), mirror_effect(c, r)] + discovery_effects(c, r)
}

/// The announcements of a list of devices, in order.
pub open spec fn announcements(c: CoordView, devs: Seq<RecordView>) -> Seq<EffectView>
    decreases devs.len(),
{
    if devs.len() == 0 {
        Seq::empty()
    } else {
        announcements(c, devs.drop_last()) + announcement(c, devs.last())
    }
}

/// The start of a monitor.
pub open spec fn start_effect(c: CoordView, slug: Seq<char>, id: IdentityView) -> EffectView {
    EffectView::StartMonitor {
        slug,
        action_topic: action_topic_text(c.mqtt.topic_prefix, slug),
        identity: id,
    }
}

/// `e` if `when` holds, else nothing.
pub open spec fn given(when: bool, e: EffectView) -> Seq<EffectView> {
    if when {
        seq![e]
    } else {
        Seq::empty()
    }
}

/// Whether the device called `slug` is switched on.
pub open spec fn is_enabled(devs: Seq<RecordView>, slug: Seq<char>) -> bool {
    lookup(devs, slug) matches Some(r) && r.enabled
}

/// A device was plugged in.
pub open spec fn connected_step(c: CoordView, id: IdentityView) -> (CoordView, Seq<EffectView>) {
    let db = after_sighting(c.db, id);
    let slug = sighted_slug(c.db, id);
    let fresh = match_index(c.db, id) is None;
    let news = given(fresh || db != c.db, EffectView::Persist) + if fresh {
        announcement(c, fresh_record(id, slug))
    } else {
        Seq::empty()
    };
    if c.connected.contains_key(slug) {
        (CoordView { db, ..c }, news)
    } else {
        let on = is_enabled(db, slug);
        (
            CoordView {
                db,
                connected: c.connected.insert(slug, id),
                monitored: if on {
                    c.monitored.insert(slug)
                } else {
                    c.monitored
                },
                ..c
            },
            news + given(on, start_effect(c, slug, id)),
        )
    }
}

/// A device went away.
pub open spec fn disconnected_step(c: CoordView, slug: Seq<char>) -> (CoordView, Seq<EffectView>) {
    (
        CoordView {
            connected: c.connected.remove(slug),
            monitored: c.monitored.remove(slug),
            ..c
        },
        given(c.monitored.contains(slug), EffectView::ReleaseMonitor { slug }),
    )
}

/// A key was pressed or released.
pub open spec fn key_step(c: CoordView, slug: Seq<char>, code: u16) -> (CoordView, Seq<EffectView>) {
    match slug_index(c.db, slug) {
        Some(i) => if c.db[i].observed_keys.contains(code) {
            (c, Seq::empty())
        } else {
            let r = c.db[i].with_key(code);
            (
                CoordView { db: c.db.update(i, r), ..c },
                seq![EffectView::Persist, info_effect(c, r)] + discovery_effects(c, r),
            )
        },
        None => (c, Seq::empty()),
    }
}

/// A device is switched on or off.
pub open spec fn enable_step(c: CoordView, slug: Seq<char>, on: bool) -> (CoordView, Seq<EffectView>) {
    match slug_index(c.db, slug) {
        Some(i) => if c.db[i].enabled == on {
            (c, Seq::empty())
        } else {
            let r = c.db[i].with_enabled(on);
            let start = on && c.connected.contains_key(slug) && !c.monitored.contains(slug);
            let stop = !on && c.monitored.contains(slug);
            (
                CoordView {
                    db: c.db.update(i, r),
                    monitored: if start {
                        c.monitored.insert(slug)
                    } else if stop {
                        c.monitored.remove(slug)
                    } else {
                        c.monitored
                    },
                    ..c
                },
                seq![EffectView::Persist, mirror_effect(c, r)] + given(
                    start,
                    start_effect(c, slug, c.connected[slug]),
                ) + given(stop, EffectView::StopMonitor { slug }),
            )
        },
        None => (c, Seq::empty()),
    }
}

/// The messages that make everyone forget a device.
pub open spec fn clearings(c: CoordView, slug: Seq<char>) -> Seq<EffectView> {
    seq![
        EffectView::Publish(clearing(info_topic_text(c.mqtt.topic_prefix, slug))),
        EffectView::Publish(clearing(enabled_topic_text(c.mqtt.topic_prefix, slug))),
        EffectView::Publish(clearing(bundle_topic(c, slug))),
    ]
}

/// A device is dropped.
pub open spec fn remove_step(c: CoordView, slug: Seq<char>) -> (CoordView, Seq<EffectView>) {
    if taken(c.db, slug) {
        (
            CoordView {
                db: without(c.db, slug),
                connected: c.connected.remove(slug),
                monitored: c.monitored.remove(slug),
                ..c
            },
            seq![EffectView::Persist] + given(
                c.monitored.contains(slug),
                EffectView::StopMonitor { slug },
            ) + clearings(c, slug),
        )
    } else {
        (c, Seq::empty())
    }
}

/// The coordinator's answer to a message: its next state, and what is to happen.
pub open spec fn step(c: CoordView, msg: MsgView) -> (CoordView, Seq<EffectView>) {
    match msg {
        MsgView::DeviceConnected(id) => connected_step(c, id),
        MsgView::DeviceDisconnected { slug } => disconnected_step(c, slug),
        MsgView::KeyObserved { slug, code } => key_step(c, slug, code),
        MsgView::EnableCommand { slug, on } => enable_step(c, slug, on),
        MsgView::RemoveCommand { slug } => remove_step(c, slug),
    }
}

/// The command that an MQTT message stands for. A payload that is not UTF-8 is
/// no command.
pub open spec fn command(prefix: Seq<char>, msg: PublishView) -> Option<MsgView> {
    match (enabled_slug(prefix, msg.topic), utf8_content(msg.payload)) {
        (Some(slug), Some(content)) => {
            let body = trimmed(content);
            if body.len() == 0 {
                Some(MsgView::RemoveCommand { slug })
            } else if body == PAYLOAD_ENABLED@ {
                Some(MsgView::EnableCommand { slug, on: true })
            } else if body == PAYLOAD_DISABLED@ {
                Some(MsgView::EnableCommand { slug, on: false })
            } else {
                None
            }
        },
        _ => None,
    }
}

/// The coordinator's answer to an MQTT message.
pub open spec fn mqtt_step(c: CoordView, msg: PublishView) -> (CoordView, Seq<EffectView>) {
    match command(c.mqtt.topic_prefix, msg) {
        Some(m) => step(c, m),
        None => (c, Seq::empty()),
    }
}

/// Actor that owns the database and keeps track of which devices are plugged in
/// and which are monitored.
#[derive(Debug)]
pub struct Coordinator {
    db: Database,
    mqtt_cfg: MqttConfig,
    hass_cfg: HassConfig,
    /// Slugs whose physical device is currently open (used to start a
    /// monitor on enable without waiting for a re-plug).
    connected: TextMap<DeviceIdentity>,
    /// Slugs with a live monitor task.
    monitored: TextMap<()>,
}

impl View for Coordinator {
    type V = CoordView;

    closed spec fn view(&self) -> CoordView {
        CoordView {
            db: self.db@,
            mqtt: self.mqtt_cfg@,
            hass: self.hass_cfg@,
            connected: self.connected@.map_values(|id: DeviceIdentity| id@),
            monitored: self.monitored@.dom(),
        }
    }
}

impl Coordinator {
    /// The maps are in order.
    pub closed spec fn wf(self) -> bool {
        self.connected.wf() && self.monitored.wf()
    }

    pub fn new(db: Database, mqtt_cfg: MqttConfig, hass_cfg: HassConfig) -> (out: Self)
        ensures
            out.wf(),
            out@ == (CoordView {
                db: db@,
                mqtt: mqtt_cfg@,
                hass: hass_cfg@,
                connected: Map::empty(),
                monitored: Set::empty(),
            }),
    {
        let out = Coordinator {
            db,
            mqtt_cfg,
            hass_cfg,
            connected: TextMap::new(),
            monitored: TextMap::new(),
        };
        assert(out@.connected =~= Map::empty());
        assert(out@.monitored =~= Set::empty());
        out
    }

    /// The database.
    pub fn database(&self) -> (out: &Database)
        ensures
            out@ == self@.db,
    {
        &self.db
    }

    /// Whether the device called `slug` is plugged in.
    pub fn is_connected(&self, slug: &str) -> (yes: bool)
        requires
            self.wf(),
        ensures
            yes == self@.connected.contains_key(slug@),
    {
        self.connected.contains_key(slug)
    }

    /// Whether the device called `slug` is monitored.
    pub fn is_monitored(&self, slug: &str) -> (yes: bool)
        requires
            self.wf(),
        ensures
            yes == self@.monitored.contains(slug@),
    {
        self.monitored.contains_key(slug)
    }

    fn connect(&mut self, slug: &str, id: DeviceIdentity)
        requires
            old(self).wf(),
        ensures
            final(self).wf(),
            final(self)@ == (CoordView {
                connected: old(self)@.connected.insert(slug@, id@),
                ..old(self)@
            }),
    {
        self.connected.insert(slug, id);
        assert(self@.connected =~= old(self)@.connected.insert(slug@, id@));
    }

    fn disconnect(&mut self, slug: &str)
        requires
            old(self).wf(),
        ensures
            final(self).wf(),
            final(self)@ == (CoordView {
                connected: old(self)@.connected.remove(slug@),
                ..old(self)@
            }),
    {
        self.connected.remove(slug);
        assert(self@.connected =~= old(self)@.connected.remove(slug@));
    }

    /// Forgets the monitor of `slug`. True iff there was one.
    fn unmonitor(&mut self, slug: &str) -> (was: bool)
        requires
            old(self).wf(),
        ensures
            final(self).wf(),
            final(self)@ == (CoordView {
                monitored: old(self)@.monitored.remove(slug@),
                ..old(self)@
            }),
            was == old(self)@.monitored.contains(slug@),
    {
        let was = self.monitored.remove(slug);
        assert(self@.monitored =~= old(self)@.monitored.remove(slug@));
        was
    }

    /// Publish current retained topics for every device already in the
    /// DB, including the disabled ones. Without this every restart of
    /// the daemon (or every fresh broker / HA install) would leave
    /// known-but-not-currently-connected devices invisible to HA, and
    /// a disabled device that is connected would never get its
    /// "Enabled" switch into HA until the user manages to enable it
    /// some other way.
    pub fn republish_known(&self) -> (out: Vec<Effect>)
        ensures
            effects(out@) == announcements(self@, self@.db),
    {
        let mut out: Vec<Effect> = Vec::new();
        let mut i: usize = 0;
        assert(effects(out@) =~= Seq::<EffectView>::empty());
        assert(self@.db.take(0) =~= Seq::<RecordView>::empty());
        while i < self.db.devices.len()
            invariant
                i <= self.db.devices@.len(),
                effects(out@) == announcements(self@, self@.db.take(i as int)),
            decreases self.db.devices@.len() - i,
        {
            self.announce(&self.db.devices[i], &mut out);
            i += 1;
            proof {
                let devs = self@.db;
                assert(devs[i - 1] == self.db.devices@[i - 1]@);
                assert(devs.take(i as int).drop_last() =~= devs.take(i - 1));
                assert(devs.take(i as int).last() == devs[i - 1]);
            }
        }
        assert(self@.db.take(i as int) =~= self@.db);
        out
    }

    /// Asks every live monitor to exit.
    pub fn abort_all_monitors(&mut self) -> (out: Vec<Effect>)
        requires
            old(self).wf(),
        ensures
            final(self).wf(),
            final(self)@ == (CoordView { monitored: Set::empty(), ..old(self)@ }),
            effects(out@).no_duplicates(),
            effects(out@).to_set() == old(self)@.monitored.map(
                |slug: Seq<char>| EffectView::StopMonitor { slug },
            ),
    {
        let ghost stop = |slug: Seq<char>| EffectView::StopMonitor { slug };
        let ghost slugs = self.monitored.keys();
        let mut out: Vec<Effect> = Vec::new();
        let mut i: usize = 0;
        while i < self.monitored.len()
            invariant
                self.wf(),
                slugs == self.monitored.keys(),
                i <= slugs.len(),
                out@.len() == i,
                forall|j: int| 0 <= j < i ==> (#[trigger] out@[j])@ == stop(slugs[j]),
                stop == (|slug: Seq<char>| EffectView::StopMonitor { slug }),
            decreases slugs.len() - i,
        {
            let (slug, _) = self.monitored.entry(i);
            out.push(Effect::StopMonitor { slug: slug.clone() });
            i += 1;
        }
        proof {
            let all = effects(out@);
            self.monitored.lemma_keys();
            assert forall|a: int, b: int|
                0 <= a < all.len() && 0 <= b < all.len() && a != b implies all[a] != all[b] by {
                assert(all[a] == out@[a]@ && all[b] == out@[b]@);
                lemma_text_order(slugs[a], slugs[a], slugs[a]);
                if a < b {
                    assert(text_lt(slugs[a], slugs[b]));
                } else {
                    assert(text_lt(slugs[b], slugs[a]));
                }
            }
            assert forall|e: EffectView|
                all.to_set().contains(e) == self@.monitored.map(stop).contains(e) by {
                if all.contains(e) {
                    let k = choose|k: int| 0 <= k < all.len() && all[k] == e;
                    assert(all[k] == out@[k]@);
                    assert(slugs.contains(slugs[k]));
                    assert(self@.monitored.contains(slugs[k]));
                    assert(stop(slugs[k]) == e);
                }
                if self@.monitored.map(stop).contains(e) {
                    let s = choose|s: Seq<char>| self@.monitored.contains(s) && e == stop(s);
                    assert(slugs.contains(s));
                    let k = choose|k: int| 0 <= k < slugs.len() && slugs[k] == s;
                    assert(all[k] == out@[k]@);
                }
            }
            assert(all.to_set() =~= self@.monitored.map(stop));
        }
        self.monitored = TextMap::new();
        assert(self@.monitored =~= Set::empty());
        out
    }

    /// Act on a message from the broker. An empty retained message on the
    /// enabled topic is the "remove this device" signal, published by
    /// `--remove-device` or by HA clearing the switch.
    pub fn handle_mqtt(&mut self, msg: &IncomingPublish) -> (out: Vec<Effect>)
        requires
            old(self).wf(),
        ensures
            final(self).wf(),
            (final(self)@, effects(out@)) == mqtt_step(old(self)@, msg@),
    {
        match command_of(self.mqtt_cfg.topic_prefix.as_str(), msg) {
            Some(m) => self.handle(m),
            None => {
                let out: Vec<Effect> = Vec::new();
                assert(effects(out@) =~= Seq::<EffectView>::empty());
                out
            },
        }
    }

    /// Act on a message from a task.
    pub fn handle(&mut self, msg: CoordinatorMsg) -> (out: Vec<Effect>)
        requires
            old(self).wf(),
        ensures
            final(self).wf(),
            (final(self)@, effects(out@)) == step(old(self)@, msg@),
    {
        match msg {
            CoordinatorMsg::DeviceConnected(id) => self.on_connected(id),
            CoordinatorMsg::DeviceDisconnected { slug } => self.on_disconnected(slug),
            CoordinatorMsg::KeyObserved { slug, code } => self.on_key(slug.as_str(), code),
            CoordinatorMsg::EnableCommand { slug, on } => self.on_enable(slug, on),
            CoordinatorMsg::RemoveCommand { slug } => self.on_remove(slug),
        }
    }

    fn on_connected(&mut self, id: DeviceIdentity) -> (out: Vec<Effect>)
        requires
            old(self).wf(),
        ensures
            final(self).wf(),
            (final(self)@, effects(out@)) == connected_step(old(self)@, id@),
    {
        let ghost c = self@;
        let mut out: Vec<Effect> = Vec::new();
        let slug: String;
        match self.db.match_or_insert(&id) {
            MatchOutcome::Matched { slug: s, backfilled } => {
                slug = s;
                if backfilled {
                    out.push(Effect::Persist);
                }
                assert(effects(out@) =~= given(self@.db != c.db, EffectView::Persist));
            },
            MatchOutcome::Inserted { slug: s } => {
                slug = s;
                out.push(Effect::Persist);
                assert(effects(out@) =~= seq![EffectView::Persist]);
                proof {
                    lemma_new_slug_free(c.db, id@);
                    lemma_lookup_taken(c.db, slug@);
                    lemma_lookup_push(c.db, fresh_record(id@, slug@), slug@);
                }
                if let Some(rec) = self.db.find(slug.as_str()) {
                    self.announce(rec, &mut out);
                }
            },
        }
        if self.is_connected(slug.as_str()) {
            return out;
        }
        self.connect(slug.as_str(), id.clone());
        let on = match self.db.find(slug.as_str()) {
            Some(r) => r.enabled,
            None => false,
        };
        if on {
            self.spawn_monitor(slug.as_str(), &mut out);
        }
        out
    }

    fn on_disconnected(&mut self, slug: String) -> (out: Vec<Effect>)
        requires
            old(self).wf(),
        ensures
            final(self).wf(),
            (final(self)@, effects(out@)) == disconnected_step(old(self)@, slug@),
    {
        let mut out: Vec<Effect> = Vec::new();
        self.disconnect(slug.as_str());
        if self.unmonitor(slug.as_str()) {
            out.push(Effect::ReleaseMonitor { slug });
        }
        assert(effects(out@) =~= given(
            old(self)@.monitored.contains(slug@),
            EffectView::ReleaseMonitor { slug: slug@ },
        ));
        out
    }

    fn on_key(&mut self, slug: &str, code: u16) -> (out: Vec<Effect>)
        requires
            old(self).wf(),
        ensures
            final(self).wf(),
            (final(self)@, effects(out@)) == key_step(old(self)@, slug@, code),
    {
        let ghost c = self@;
        let ghost before = self.db.devices@;
        let mut out: Vec<Effect> = Vec::new();
        assert(effects(out@) =~= Seq::<EffectView>::empty());
        let changed: Option<DeviceRecord> = match self.db.find_mut(slug) {
            Some(rec) => {
                if rec.record_observed_key(code) {
                    Some(rec.clone())
                } else {
                    None
                }
            },
            None => {
                proof {
                    lemma_lookup_taken(c.db, slug@);
                }
                return out;
            },
        };
        proof {
            lemma_lookup_taken(c.db, slug@);
            let i = slug_index(c.db, slug@)->0;
            assert(c.db[i] == before[i]@);
            assert(self@.db =~= c.db.update(i, c.db[i].with_key(code)));
            if changed is None {
                assert(self@.db =~= c.db);
            }
        }
        if let Some(rec) = changed {
            out.push(Effect::Persist);
            assert(effects(out@) =~= seq![EffectView::Persist]);
            self.publish_info(&rec, &mut out);
            self.publish_discovery(&rec, &mut out);
            assert(effects(out@) =~= seq![EffectView::Persist, info_effect(c, rec@)]
                + discovery_effects(c, rec@));
        }
        out
    }

    fn on_enable(&mut self, slug: String, on: bool) -> (out: Vec<Effect>)
        requires
            old(self).wf(),
        ensures
            final(self).wf(),
            (final(self)@, effects(out@)) == enable_step(old(self)@, slug@, on),
    {
        let ghost c = self@;
        let ghost before = self.db.devices@;
        let mut out: Vec<Effect> = Vec::new();
        assert(effects(out@) =~= Seq::<EffectView>::empty());
        let changed: Option<DeviceRecord> = match self.db.find_mut(slug.as_str()) {
            Some(rec) => {
                if rec.enabled == on {
                    None
                } else {
                    rec.enabled = on;
                    Some(rec.clone())
                }
            },
            None => {
                proof {
                    lemma_lookup_taken(c.db, slug@);
                }
                return out;
            },
        };
        proof {
            lemma_lookup_taken(c.db, slug@);
            let i = slug_index(c.db, slug@)->0;
            assert(c.db[i] == before[i]@);
            assert(self@.db =~= c.db.update(i, c.db[i].with_enabled(on)));
            if changed is None {
                assert(self@.db =~= c.db);
            }
        }
        if let Some(rec) = changed {
            out.push(Effect::Persist);
            assert(effects(out@) =~= seq![EffectView::Persist]);
            self.publish_enabled_mirror(&rec, &mut out);
            assert(effects(out@) =~= seq![EffectView::Persist, mirror_effect(c, rec@)]);
            if on {
                if self.is_connected(slug.as_str()) && !self.is_monitored(slug.as_str()) {
                    self.spawn_monitor(slug.as_str(), &mut out);
                }
            } else if self.unmonitor(slug.as_str()) {
                out.push(Effect::StopMonitor { slug });
            } else {
                assert(self@.monitored =~= c.monitored);
            }
            proof {
                let start = on && c.connected.contains_key(slug@) && !c.monitored.contains(slug@);
                let stop = !on && c.monitored.contains(slug@);
                assert(effects(out@) =~= seq![EffectView::Persist, mirror_effect(c, rec@)] + given(
                    start,
                    start_effect(c, slug@, c.connected[slug@]),
                ) + given(stop, EffectView::StopMonitor { slug: slug@ }));
            }
        }
        out
    }

    fn on_remove(&mut self, slug: String) -> (out: Vec<Effect>)
        requires
            old(self).wf(),
        ensures
            final(self).wf(),
            (final(self)@, effects(out@)) == remove_step(old(self)@, slug@),
    {
        let ghost c = self@;
        let mut out: Vec<Effect> = Vec::new();
        assert(effects(out@) =~= Seq::<EffectView>::empty());
        if !self.db.remove(slug.as_str()) {
            proof {
                crate::db::lemma_without_absent(c.db, slug@);
            }
            return out;
        }
        out.push(Effect::Persist);
        if self.unmonitor(slug.as_str()) {
            out.push(Effect::StopMonitor { slug: slug.clone() });
        }
        self.disconnect(slug.as_str());

        // Clear retained topics so HA forgets the device.
        let prefix = self.mqtt_cfg.topic_prefix.as_str();
        let identifier = device_identifier(prefix, slug.as_str());
        let info = device_info_topic(prefix, slug.as_str());
        let enabled = device_enabled_topic(prefix, slug.as_str());
        let bundle = device_discovery_topic(
            self.hass_cfg.discovery_prefix.as_str(),
            identifier.as_str(),
        );
        out.push(Effect::Publish(Publish::empty_retained(info)));
        out.push(Effect::Publish(Publish::empty_retained(enabled)));
        out.push(Effect::Publish(Publish::empty_retained(bundle)));
        assert(effects(out@) =~= seq![EffectView::Persist] + given(
            c.monitored.contains(slug@),
            EffectView::StopMonitor { slug: slug@ },
        ) + clearings(c, slug@));
        out
    }

    /// Starts the monitor of a device that is plugged in.
    fn spawn_monitor(&mut self, slug: &str, out: &mut Vec<Effect>)
        requires
            old(self).wf(),
            old(self)@.connected.contains_key(slug@),
        ensures
            final(self).wf(),
            final(self)@ == (CoordView {
                monitored: old(self)@.monitored.insert(slug@),
                ..old(self)@
            }),
            effects(final(out)@) == effects(old(out)@).push(
                start_effect(old(self)@, slug@, old(self)@.connected[slug@]),
            ),
    {
        let ghost before = out@;
        if let Some(id) = self.connected.get(slug) {
            out.push(
                Effect::StartMonitor {
                    slug: slug.to_owned(),
                    action_topic: action_topic(self.mqtt_cfg.topic_prefix.as_str(), slug),
                    identity: id.clone(),
                },
            );
            assert(effects(out@) =~= effects(before).push(
                start_effect(self@, slug@, self@.connected[slug@]),
            ));
        }
        self.monitored.insert(slug, ());
        assert(self@.monitored =~= old(self)@.monitored.insert(slug@));
    }

    fn announce(&self, rec: &DeviceRecord, out: &mut Vec<Effect>)
        ensures
            effects(final(out)@) == effects(old(out)@) + announcement(self@, rec@),
    {
        self.publish_info(rec, out);
        self.publish_enabled_mirror(rec, out);
        self.publish_discovery(rec, out);
        assert(effects(out@) =~= effects(old(out)@) + announcement(self@, rec@));
    }

    fn publish_info(&self, rec: &DeviceRecord, out: &mut Vec<Effect>)
        ensures
            effects(final(out)@) == effects(old(out)@).push(info_effect(self@, rec@)),
    {
        let ghost before = out@;
        let topic = device_info_topic(self.mqtt_cfg.topic_prefix.as_str(), rec.slug.as_str());
        out.push(
            Effect::Publish(Publish { topic, payload: device_info_payload(rec), retain: true }),
        );
        assert(effects(out@) =~= effects(before).push(info_effect(self@, rec@)));
    }

    fn publish_enabled_mirror(&self, rec: &DeviceRecord, out: &mut Vec<Effect>)
        ensures
            effects(final(out)@) == effects(old(out)@).push(mirror_effect(self@, rec@)),
    {
        let ghost before = out@;
        let topic = device_enabled_topic(self.mqtt_cfg.topic_prefix.as_str(), rec.slug.as_str());
        let body = if rec.enabled {
            PAYLOAD_ENABLED
        } else {
            PAYLOAD_DISABLED
        };
        out.push(Effect::Publish(Publish::text(topic, body, true)));
        assert(effects(out@) =~= effects(before).push(mirror_effect(self@, rec@)));
    }

    fn publish_discovery(&self, rec: &DeviceRecord, out: &mut Vec<Effect>)
        ensures
            effects(final(out)@) == effects(old(out)@) + discovery_effects(self@, rec@),
    {
        let ghost before = out@;
        if self.hass_cfg.enabled {
            let identifier = device_identifier(
                self.mqtt_cfg.topic_prefix.as_str(),
                rec.slug.as_str(),
            );
            let topic = device_discovery_topic(
                self.hass_cfg.discovery_prefix.as_str(),
                identifier.as_str(),
            );
            let payload = discovery_payload(rec, &self.mqtt_cfg, &self.hass_cfg);
            out.push(Effect::Publish(Publish { topic, payload, retain: true }));
        }
        assert(effects(out@) =~= effects(before) + discovery_effects(self@, rec@));
    }
}

/// The command that an MQTT message stands for. Anything but a switch word or an
/// empty payload is ignored.
pub fn command_of(topic_prefix: &str, msg: &IncomingPublish) -> (out: Option<CoordinatorMsg>)
    ensures
        match out {
            Some(m) => command(topic_prefix@, msg@) == Some(m@),
            None => command(topic_prefix@, msg@) is None,
        },
{
    let slug: String = match parse_enabled_topic(topic_prefix, msg.topic.as_str()) {
        Some(s) => s.to_owned(),
        None => {
            return None;
        },
    };
    let body = match utf8_text(&msg.payload) {
        Some(content) => trim(content),
        None => {
            return None;
        },
    };
    if body.as_str().is_empty() {
        Some(CoordinatorMsg::RemoveCommand { slug })
    } else if text_eq(body.as_str(), PAYLOAD_ENABLED) {
        Some(CoordinatorMsg::EnableCommand { slug, on: true })
    } else if text_eq(body.as_str(), PAYLOAD_DISABLED) {
        Some(CoordinatorMsg::EnableCommand { slug, on: false })
    } else {
        None
    }
}

} // verus!
