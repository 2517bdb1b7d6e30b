//! What the coordinator does about devices, keys and commands.

use crate::behaviour::devices::{
    fills, first_free, first_recognised, recognises, registers, shown_name, used,
};
use crate::behaviour::topics::{enabled_topic_of, one_level};
use crate::behaviour::words::{core_of, lemma_core};
use crate::config::{HassConfig, MqttConfig};
use crate::coordinator::{
    announcement, announcements, command, command_of, effects, step, CoordView, Coordinator,
    CoordinatorMsg, Effect, EffectView, MsgView,
};
use crate::db::{
    first_at, lemma_first_at, lookup, match_index, sighted_slug, slug_index, taken, Database,
    DeviceRecord, RecordView,
};
use crate::discovery::{DeviceIdentity, IdentityView};
use crate::hass::{device_info_payload, discovery_payload};
use crate::mqtt::{IncomingPublish, PublishView};
use crate::slug::slug;
use crate::topics::{enabled_topic_text, lemma_enabled_topic_round_trip};
use vstd::prelude::*;
use vstd::string::*;
use vstd::utf8::{decode_utf8, encode_utf8, valid_utf8};

verus! {

/// Whether `i` is the first of the records called `s`.
pub open spec fn first_called(devs: Seq<RecordView>, i: int, s: Seq<char>) -> bool {
    &&& 0 <= i < devs.len()
    &&& devs[i].slug == s
    &&& forall|j: int| 0 <= j < i ==> #[trigger] devs[j].slug != s
}

proof fn lemma_called(devs: Seq<RecordView>, i: int, s: Seq<char>)
    requires
        first_called(devs, i, s),
    ensures
        slug_index(devs, s) == Some(i),
        lookup(devs, s) == Some(devs[i]),
        taken(devs, s),
        used(devs, s),
{
    assert(first_at(devs, i, s)) by {
        assert forall|j: int| 0 <= j < i implies (#[trigger] devs[j]).slug != s by {
            assert(devs[j].slug != s);
        }
    }
    lemma_first_at(devs, i, s);
    assert(devs[i].slug == s);
}

proof fn lemma_not_called(devs: Seq<RecordView>, s: Seq<char>)
    requires
        !used(devs, s),
    ensures
        slug_index(devs, s) is None,
        lookup(devs, s) is None,
        !taken(devs, s),
{
    crate::db::lemma_lookup_taken(devs, s);
    if taken(devs, s) {
        let i = choose|i: int| 0 <= i < devs.len() && (#[trigger] devs[i]).slug == s;
        assert(devs[i].slug == s);
    }
}

/// The sending of a retained message.
pub open spec fn sent(topic: Seq<char>, payload: Seq<u8>) -> EffectView {
    EffectView::Publish(PublishView { topic, payload, retain: true })
}

/// What the enabled topic carries.
pub open spec fn word_for(on: bool) -> Seq<u8> {
    encode_utf8(
        if on {
            "on"@
        } else {
            "off"@
        },
    )
}

/// What a device's retained topics are told: its description, its switch, and the
/// bundle unless discovery is off.
pub open spec fn told(
    c: CoordView,
    s: Seq<char>,
    on: bool,
    info: Seq<u8>,
    bundle: Seq<u8>,
) -> Seq<EffectView> {
    let prefix = c.mqtt.topic_prefix;
    let always = seq![
        sent(prefix + "/_devices/"@ + s, info),
        sent(prefix + "/_devices/"@ + s + "/enabled"@, word_for(on)),
    ];
    if c.hass.enabled {
        always.push(
            sent(
                c.hass.discovery_prefix + "/device/"@ + (prefix + "_"@ + s) + "/config"@,
                bundle,
            ),
        )
    } else {
        always
    }
}

proof fn lemma_told(
    c: CoordView,
    rec: DeviceRecord,
    info: Vec<u8>,
    bundle: Vec<u8>,
    mqtt: MqttConfig,
    hass: HassConfig,
)
    requires
        call_ensures(device_info_payload, (&rec,), info),
        call_ensures(discovery_payload, (&rec, &mqtt, &hass), bundle),
        mqtt@ == c.mqtt,
        hass@ == c.hass,
    ensures
        announcement(c, rec@) == told(c, rec@.slug, rec@.enabled, info@, bundle@),
{
    assert(announcement(c, rec@) =~= told(c, rec@.slug, rec@.enabled, info@, bundle@));
}

/// A coordinator starts with its database and settings, with nothing plugged in
/// and nothing monitored.
pub proof fn law_new(db: Database, mqtt: MqttConfig, hass: HassConfig, out: Coordinator)
    requires
        call_ensures(Coordinator::new, (db, mqtt, hass), out),
    ensures
        out@.db == db@,
        out@.mqtt == mqtt@,
        out@.hass == hass@,
        forall|s: Seq<char>| !#[trigger] out@.connected.contains_key(s),
        forall|s: Seq<char>| !#[trigger] out@.monitored.contains(s),
{
}

/// What a coordinator is asked about devices.
pub proof fn law_questions(c: Coordinator, s: &str, plugged: bool, watched: bool)
    requires
        call_ensures(Coordinator::is_connected, (&c, s), plugged),
        call_ensures(Coordinator::is_monitored, (&c, s), watched),
    ensures
        plugged == c@.connected.contains_key(s@),
        watched == c@.monitored.contains(s@),
{
}

/// A known device that is plugged in keeps its record, which is completed and
/// saved if it lacked something. Its sighting is remembered as it was, and it is
/// monitored if it is switched on; a device that is plugged in already is left
/// alone.
pub proof fn law_known_device(
    c: &mut Coordinator,
    id: DeviceIdentity,
    out: Vec<Effect>,
    i: int,
    k: int,
)
    requires
        call_ensures(Coordinator::handle, (c, CoordinatorMsg::DeviceConnected(id)), out),
        first_recognised(old(c)@.db, i, id@),
        first_called(old(c)@.db, k, old(c)@.db[i].slug),
    ensures
        ({
            let (b, a, e) = (old(c)@, final(c)@, effects(out@));
            let s = b.db[i].slug;
            let changed = a.db[i] != b.db[i];
            let saved = if changed {
                seq![EffectView::Persist]
            } else {
                Seq::<EffectView>::empty()
            };
            let start = EffectView::StartMonitor {
                slug: s,
                action_topic: b.mqtt.topic_prefix + "/"@ + s + "/action"@,
                identity: id@,
            };
            &&& a.mqtt == b.mqtt && a.hass == b.hass
            &&& a.db.len() == b.db.len()
            &&& fills(b.db[i], a.db[i], id@)
            &&& forall|j: int| 0 <= j < b.db.len() && j != i ==> #[trigger] a.db[j] == b.db[j]
            &&& b.connected.contains_key(s) ==> a.connected == b.connected && a.monitored
                == b.monitored && e == saved
            &&& !b.connected.contains_key(s) ==> {
                &&& a.connected == b.connected.insert(s, id@)
                &&& b.db[k].enabled ==> a.monitored == b.monitored.insert(s) && e == saved.push(
                    start,
                )
                &&& !b.db[k].enabled ==> a.monitored == b.monitored && e == saved
            }
        }),
{
    let (b, a, e) = (old(c)@, final(c)@, effects(out@));
    let s = b.db[i].slug;
    lemma_match_is_first(b.db, i, id@);
    assert(a.db == b.db.update(i, b.db[i].completed(id@)));
    if a.db[i] == b.db[i] {
        assert(a.db =~= b.db);
    }
    assert(first_called(a.db, k, s)) by {
        assert forall|j: int| 0 <= j < k implies #[trigger] a.db[j].slug != s by {
            assert(b.db[j].slug != s);
        }
    }
    lemma_called(a.db, k, s);
    let start = EffectView::StartMonitor {
        slug: s,
        action_topic: b.mqtt.topic_prefix + "/"@ + s + "/action"@,
        identity: id@,
    };
    let saved = if a.db[i] != b.db[i] {
        seq![EffectView::Persist]
    } else {
        Seq::<EffectView>::empty()
    };
    if !b.connected.contains_key(s) && b.db[k].enabled {
        assert(e =~= saved.push(start));
    } else {
        assert(e =~= saved);
    }
}

proof fn lemma_match_is_first(devs: Seq<RecordView>, i: int, id: IdentityView)
    requires
        first_recognised(devs, i, id),
    ensures
        match_index(devs, id) == Some(i),
{
    assert forall|j: int| 0 <= j < i implies !(#[trigger] devs[j]).describes(id) by {
        assert(!recognises(devs[j], id));
    }
    assert(devs[i].describes(id));
    crate::db::lemma_first_match(devs, i, id);
}

proof fn lemma_match_is_none(devs: Seq<RecordView>, id: IdentityView)
    requires
        forall|i: int| 0 <= i < devs.len() ==> !recognises(#[trigger] devs[i], id),
    ensures
        match_index(devs, id) is None,
{
    crate::db::lemma_match_index(devs, id);
    if let Some(i) = match_index(devs, id) {
        assert(!recognises(devs[i], id));
    }
}

/// A new device is registered, saved and announced, switched off; and its sighting
/// is remembered as it was.
pub proof fn law_new_device(
    c: &mut Coordinator,
    id: DeviceIdentity,
    out: Vec<Effect>,
    rec: DeviceRecord,
    mqtt: MqttConfig,
    hass: HassConfig,
    info: Vec<u8>,
    bundle: Vec<u8>,
)
    requires
        call_ensures(Coordinator::handle, (c, CoordinatorMsg::DeviceConnected(id)), out),
        forall|i: int| 0 <= i < old(c)@.db.len() ==> !recognises(#[trigger] old(c)@.db[i], id@),
        rec@ == final(c)@.db.last(),
        mqtt@ == old(c)@.mqtt,
        hass@ == old(c)@.hass,
        call_ensures(device_info_payload, (&rec,), info),
        call_ensures(discovery_payload, (&rec, &mqtt, &hass), bundle),
    ensures
        ({
            let (b, a, e) = (old(c)@, final(c)@, effects(out@));
            let r = a.db.last();
            &&& a.mqtt == b.mqtt && a.hass == b.hass
            &&& a.db == b.db.push(r)
            &&& registers(r, id@)
            &&& first_free(b.db, slug(shown_name(id@.name, id@.capability_tag)), r.slug)
            &&& e == seq![EffectView::Persist] + told(b, r.slug, false, info@, bundle@)
            &&& a.monitored == b.monitored
            &&& b.connected.contains_key(r.slug) ==> a.connected == b.connected
            &&& !b.connected.contains_key(r.slug) ==> a.connected == b.connected.insert(
                r.slug,
                id@,
            )
        }),
{
    let (b, a, e) = (old(c)@, final(c)@, effects(out@));
    lemma_match_is_none(b.db, id@);
    crate::behaviour::devices::lemma_registered(b.db, id@);
    let r = a.db.last();
    lemma_told(b, rec, info, bundle, mqtt, hass);
    crate::db::lemma_new_slug_free(b.db, id@);
    crate::db::lemma_lookup_taken(b.db, r.slug);
    crate::db::lemma_lookup_push(b.db, r, r.slug);
    assert(e =~= seq![EffectView::Persist] + told(b, r.slug, false, info@, bundle@));
}

/// A device that is plugged in and then switched on is monitored as it was sighted.
pub proof fn law_sighting_reaches_monitor(
    c: &mut Coordinator,
    id: DeviceIdentity,
    out: Vec<Effect>,
    d: &mut Coordinator,
    s: String,
    out_on: Vec<Effect>,
    i: int,
)
    requires
        call_ensures(Coordinator::handle, (c, CoordinatorMsg::DeviceConnected(id)), out),
        old(d)@ == final(c)@,
        call_ensures(
            Coordinator::handle,
            (d, CoordinatorMsg::EnableCommand { slug: s, on: true }),
            out_on,
        ),
        s@ == sighted_slug(old(c)@.db, id@),
        !old(c)@.connected.contains_key(s@),
        !old(c)@.monitored.contains(s@),
        first_called(final(c)@.db, i, s@),
        !final(c)@.db[i].enabled,
    ensures
        final(c)@.connected.contains_key(s@),
        final(c)@.connected[s@] == id@,
        effects(out_on@).contains(
            EffectView::StartMonitor {
                slug: s@,
                action_topic: old(c)@.mqtt.topic_prefix + "/"@ + s@ + "/action"@,
                identity: id@,
            },
        ),
        final(d)@.monitored.contains(s@),
{
    lemma_called(final(c)@.db, i, s@);
    let e = effects(out_on@);
    assert(e[2] == EffectView::StartMonitor {
        slug: s@,
        action_topic: old(c)@.mqtt.topic_prefix + "/"@ + s@ + "/action"@,
        identity: id@,
    });
}

/// What is remembered of a plugged-in device is what was sighted, whether it is
/// switched on or not.
pub proof fn law_sighting_is_kept(c: CoordView, id: IdentityView)
    requires
        !c.connected.contains_key(sighted_slug(c.db, id)),
    ensures
        ({
            let after = step(c, MsgView::DeviceConnected(id)).0;
            let s = sighted_slug(c.db, id);
            &&& after.connected.contains_key(s)
            &&& after.connected[s] == id
            &&& forall|t: Seq<char>|
                t != s ==> #[trigger] after.connected.contains_key(t)
                    == c.connected.contains_key(t) && (c.connected.contains_key(t)
                    ==> after.connected[t] == c.connected[t])
        }),
{
}

/// A device that went away is no longer plugged in or monitored; its record stays.
pub proof fn law_disconnected(c: &mut Coordinator, s: String, out: Vec<Effect>)
    requires
        call_ensures(
            Coordinator::handle,
            (c, CoordinatorMsg::DeviceDisconnected { slug: s }),
            out,
        ),
    ensures
        ({
            let (b, a, e) = (old(c)@, final(c)@, effects(out@));
            &&& a.db == b.db && a.mqtt == b.mqtt && a.hass == b.hass
            &&& a.connected == b.connected.remove(s@)
            &&& a.monitored == b.monitored.remove(s@)
            &&& b.monitored.contains(s@) ==> e == seq![EffectView::ReleaseMonitor { slug: s@ }]
            &&& !b.monitored.contains(s@) ==> e.len() == 0
        }),
{
}

/// A key seen for the first time is saved, and description and bundle are told
/// anew; one that is known changes nothing.
pub proof fn law_key_observed(
    c: &mut Coordinator,
    s: String,
    code: u16,
    out: Vec<Effect>,
    i: int,
    rec: DeviceRecord,
    mqtt: MqttConfig,
    hass: HassConfig,
    info: Vec<u8>,
    bundle: Vec<u8>,
)
    requires
        call_ensures(
            Coordinator::handle,
            (c, CoordinatorMsg::KeyObserved { slug: s, code }),
            out,
        ),
        first_called(old(c)@.db, i, s@),
        rec@ == final(c)@.db[i],
        mqtt@ == old(c)@.mqtt,
        hass@ == old(c)@.hass,
        call_ensures(device_info_payload, (&rec,), info),
        call_ensures(discovery_payload, (&rec, &mqtt, &hass), bundle),
    ensures
        ({
            let (b, a, e) = (old(c)@, final(c)@, effects(out@));
            let (before, after) = (b.db[i].observed_keys, a.db[i].observed_keys);
            let all = told(b, s@, true, info@, bundle@);
            &&& before.contains(code) ==> a == b && e.len() == 0
            &&& !before.contains(code) ==> {
                &&& a.connected == b.connected && a.monitored == b.monitored
                &&& a.mqtt == b.mqtt && a.hass == b.hass
                &&& a.db == b.db.update(
                    i,
                    RecordView { observed_keys: after, ..b.db[i] },
                )
                &&& after.to_multiset() == before.to_multiset().insert(code)
                &&& forall|x: int, y: int|
                    0 <= x < y < after.len() ==> #[trigger] after[x] <= #[trigger] after[y]
                &&& e[0] == EffectView::Persist
                &&& e[1] == all[0]
                &&& b.hass.enabled ==> e.len() == 3 && e[2] == all[2]
                &&& !b.hass.enabled ==> e.len() == 2
            }
        }),
{
    let (b, a, e) = (old(c)@, final(c)@, effects(out@));
    lemma_called(b.db, i, s@);
    let (before, after) = (b.db[i].observed_keys, a.db[i].observed_keys);
    if !before.contains(code) {
        let longer = before.push(code);
        crate::codes::lemma_sorted_codes_ensures(longer);
        before.to_multiset_ensures();
        assert forall|x: int, y: int| 0 <= x < y < after.len() implies #[trigger] after[x]
            <= #[trigger] after[y] by {
            assert((crate::codes::code_leq())(after[x], after[y]));
        }
        lemma_told(b, rec, info, bundle, mqtt, hass);
    }
}

/// Switching a device over is saved and mirrored, and starts or stops its monitor;
/// switching it to where it is changes nothing.
pub proof fn law_switch(c: &mut Coordinator, s: String, on: bool, out: Vec<Effect>, i: int)
    requires
        call_ensures(
            Coordinator::handle,
            (c, CoordinatorMsg::EnableCommand { slug: s, on }),
            out,
        ),
        first_called(old(c)@.db, i, s@),
    ensures
        ({
            let (b, a, e) = (old(c)@, final(c)@, effects(out@));
            let prefix = b.mqtt.topic_prefix;
            let first = seq![
                EffectView::Persist,
                sent(prefix + "/_devices/"@ + s@ + "/enabled"@, word_for(on)),
            ];
            let start = on && b.connected.contains_key(s@) && !b.monitored.contains(s@);
            let stop = !on && b.monitored.contains(s@);
            &&& b.db[i].enabled == on ==> a == b && e.len() == 0
            &&& b.db[i].enabled != on ==> {
                &&& a.mqtt == b.mqtt && a.hass == b.hass && a.connected == b.connected
                &&& a.db == b.db.update(i, RecordView { enabled: on, ..b.db[i] })
                &&& start ==> a.monitored == b.monitored.insert(s@) && e == first.push(
                    EffectView::StartMonitor {
                        slug: s@,
                        action_topic: prefix + "/"@ + s@ + "/action"@,
                        identity: b.connected[s@],
                    },
                )
                &&& stop ==> a.monitored == b.monitored.remove(s@) && e == first.push(
                    EffectView::StopMonitor { slug: s@ },
                )
                &&& !start && !stop ==> a.monitored == b.monitored && e == first
            }
        }),
{
    let (b, a, e) = (old(c)@, final(c)@, effects(out@));
    lemma_called(b.db, i, s@);
    let prefix = b.mqtt.topic_prefix;
    let first = seq![
        EffectView::Persist,
        sent(prefix + "/_devices/"@ + s@ + "/enabled"@, word_for(on)),
    ];
    if b.db[i].enabled != on {
        let start = on && b.connected.contains_key(s@) && !b.monitored.contains(s@);
        let stop = !on && b.monitored.contains(s@);
        if start {
            assert(e =~= first.push(
                EffectView::StartMonitor {
                    slug: s@,
                    action_topic: prefix + "/"@ + s@ + "/action"@,
                    identity: b.connected[s@],
                },
            ));
        } else if stop {
            assert(e =~= first.push(EffectView::StopMonitor { slug: s@ }));
        } else {
            assert(e =~= first);
        }
    }
}

/// Removing a device forgets its record, stops its monitor and clears its three
/// topics.
pub proof fn law_removed(c: &mut Coordinator, s: String, out: Vec<Effect>)
    requires
        call_ensures(Coordinator::handle, (c, CoordinatorMsg::RemoveCommand { slug: s }), out),
        used(old(c)@.db, s@),
    ensures
        ({
            let (b, a, e) = (old(c)@, final(c)@, effects(out@));
            let prefix = b.mqtt.topic_prefix;
            let none = Seq::<u8>::empty();
            let head = if b.monitored.contains(s@) {
                seq![EffectView::Persist, EffectView::StopMonitor { slug: s@ }]
            } else {
                seq![EffectView::Persist]
            };
            &&& a.mqtt == b.mqtt && a.hass == b.hass
            &&& a.db == b.db.filter(|r: RecordView| r.slug != s@)
            &&& a.connected == b.connected.remove(s@)
            &&& a.monitored == b.monitored.remove(s@)
            &&& e == head.push(sent(prefix + "/_devices/"@ + s@, none)).push(
                sent(prefix + "/_devices/"@ + s@ + "/enabled"@, none),
            ).push(
                sent(
                    b.hass.discovery_prefix + "/device/"@ + (prefix + "_"@ + s@) + "/config"@,
                    none,
                ),
            )
        }),
{
    let (b, a, e) = (old(c)@, final(c)@, effects(out@));
    let i = choose|i: int| 0 <= i < b.db.len() && #[trigger] b.db[i].slug == s@;
    assert(taken(b.db, s@)) by {
        assert(b.db[i].slug == s@);
    }
    let prefix = b.mqtt.topic_prefix;
    let none = Seq::<u8>::empty();
    let head = if b.monitored.contains(s@) {
        seq![EffectView::Persist, EffectView::StopMonitor { slug: s@ }]
    } else {
        seq![EffectView::Persist]
    };
    assert(e =~= head.push(sent(prefix + "/_devices/"@ + s@, none)).push(
        sent(prefix + "/_devices/"@ + s@ + "/enabled"@, none),
    ).push(
        sent(b.hass.discovery_prefix + "/device/"@ + (prefix + "_"@ + s@) + "/config"@, none),
    ));
}

/// What is asked of a device that is not known is passed over.
pub proof fn law_unknown_slug(c: &mut Coordinator, msg: CoordinatorMsg, out: Vec<Effect>)
    requires
        call_ensures(Coordinator::handle, (c, msg), out),
        match msg {
            CoordinatorMsg::KeyObserved { slug: s, code: _ } => !used(old(c)@.db, s@),
            CoordinatorMsg::EnableCommand { slug: s, on: _ } => !used(old(c)@.db, s@),
            CoordinatorMsg::RemoveCommand { slug: s } => !used(old(c)@.db, s@),
            _ => false,
        },
    ensures
        final(c)@ == old(c)@,
        out@.len() == 0,
{
    let s = match msg {
        CoordinatorMsg::KeyObserved { slug: s, code: _ } => s@,
        CoordinatorMsg::EnableCommand { slug: s, on: _ } => s@,
        CoordinatorMsg::RemoveCommand { slug: s } => s@,
        _ => arbitrary(),
    };
    lemma_not_called(old(c)@.db, s);
    assert(effects(out@).len() == out@.len());
}

/// Whether a message is one for the enabled topic of the device `s`, with the
/// content `word` but for white space around it.
pub open spec fn asks(
    prefix: Seq<char>,
    msg: IncomingPublish,
    s: Seq<char>,
    word: Seq<char>,
) -> bool {
    &&& one_level(s)
    &&& msg.topic@ == enabled_topic_of(prefix, s)
    &&& valid_utf8(msg.payload@)
    &&& says_word(decode_utf8(msg.payload@), word)
}

/// Whether a text is `word` but for white space around it.
pub open spec fn says_word(s: Seq<char>, word: Seq<char>) -> bool {
    exists|i: int, j: int| #[trigger] core_of(s, word, i, j)
}

pub proof fn lemma_core_is_trimmed(s: Seq<char>, t: Seq<char>)
    ensures
        says_word(s, t) <==> t == crate::text::trimmed(s),
{
    let (k, l) = lemma_core(s);
    assert(core_of(s, crate::text::trimmed(s), k, l));
    if exists|i: int, j: int| #[trigger] core_of(s, t, i, j) {
        let (i, j) = choose|i: int, j: int| #[trigger] core_of(s, t, i, j);
        if i < j {
            assert(!crate::behaviour::words::white(s[i]));
            assert(!crate::behaviour::words::white(s[j - 1]));
            assert(k <= i && j <= l);
            assert(!crate::behaviour::words::white(s[k]));
            assert(!crate::behaviour::words::white(s[l - 1]));
            assert(i <= k && l <= j);
        } else {
            if k < l {
                assert(crate::behaviour::words::white(s[k]));
            }
            assert(t =~= Seq::<char>::empty());
            assert(crate::text::trimmed(s) =~= Seq::<char>::empty());
        }
    }
}

/// `on` switches a device on, `off` switches it off, nothing removes it, and any
/// other message is no command.
pub proof fn law_command(prefix: &str, msg: IncomingPublish, out: Option<CoordinatorMsg>)
    requires
        call_ensures(command_of, (prefix, &msg), out),
    ensures
        match out {
            Some(CoordinatorMsg::EnableCommand { slug: s, on: true }) => asks(
                prefix@,
                msg,
                s@,
                "on"@,
            ),
            Some(CoordinatorMsg::EnableCommand { slug: s, on: false }) => asks(
                prefix@,
                msg,
                s@,
                "off"@,
            ),
            Some(CoordinatorMsg::RemoveCommand { slug: s }) => asks(
                prefix@,
                msg,
                s@,
                Seq::empty(),
            ),
            Some(_) => false,
            None => forall|s: Seq<char>|
                {
                    &&& !#[trigger] asks(prefix@, msg, s, "on"@)
                    &&& !asks(prefix@, msg, s, "off"@)
                    &&& !asks(prefix@, msg, s, Seq::empty())
                },
        },
{
    crate::behaviour::topics::law_payload_words();
    let content = decode_utf8(msg.payload@);
    let on = "on"@;
    let off = "off"@;
    let none = Seq::<char>::empty();
    lemma_core_is_trimmed(content, on);
    lemma_core_is_trimmed(content, off);
    lemma_core_is_trimmed(content, none);
    reveal_strlit("on");
    reveal_strlit("off");
    assert(on.len() == 2 && off.len() == 3);
    if crate::text::trimmed(content).len() == 0 {
        assert(crate::text::trimmed(content) =~= none);
    }
    assert forall|s: Seq<char>| #[trigger]
        enabled_topic_of(prefix@, s) == enabled_topic_text(prefix@, s) by {}
    assert forall|s: Seq<char>| #[trigger] one_level(s) == crate::topics::is_segment(s) by {
        if one_level(s) && s.contains('/') {
            let k = s.index_of('/');
            assert(s[k] == '/');
        }
        if crate::topics::is_segment(s) {
            assert forall|i: int| 0 <= i < s.len() implies #[trigger] s[i] != '/' by {
                if s[i] == '/' {
                    assert(s.contains('/'));
                }
            }
        }
    }
    match out {
        Some(m) => {
            let s = match m {
                CoordinatorMsg::EnableCommand { slug: s, on: _ } => s@,
                CoordinatorMsg::RemoveCommand { slug: s } => s@,
                _ => arbitrary(),
            };
            assert(command(prefix@, msg@) == Some(m@));
            lemma_enabled_topic_round_trip(prefix@, msg.topic@, s);
            assert(one_level(s) == crate::topics::is_segment(s));
            assert(msg@.topic == msg.topic@ && msg@.payload == msg.payload@);
            match m {
                CoordinatorMsg::EnableCommand { slug: t, on: up } => {
                    assert(m@ == (MsgView::EnableCommand { slug: t@, on: up }));
                    if up {
                        assert(crate::text::trimmed(content) == on);
                        assert(asks(prefix@, msg, s, on));
                    } else {
                        assert(crate::text::trimmed(content) == off);
                        assert(asks(prefix@, msg, s, off));
                    }
                },
                CoordinatorMsg::RemoveCommand { slug: t } => {
                    assert(m@ == (MsgView::RemoveCommand { slug: t@ }));
                    assert(asks(prefix@, msg, s, none));
                },
                CoordinatorMsg::DeviceConnected(id) => {
                    assert(m@ == MsgView::DeviceConnected(id@));
                },
                CoordinatorMsg::DeviceDisconnected { slug: t } => {
                    assert(m@ == (MsgView::DeviceDisconnected { slug: t@ }));
                },
                CoordinatorMsg::KeyObserved { slug: t, code } => {
                    assert(m@ == (MsgView::KeyObserved { slug: t@, code }));
                },
            }
        },
        None => {
            assert forall|s: Seq<char>|
                {
                    &&& !#[trigger] asks(prefix@, msg, s, on)
                    &&& !asks(prefix@, msg, s, off)
                    &&& !asks(prefix@, msg, s, none)
                } by {
                lemma_enabled_topic_round_trip(prefix@, msg.topic@, s);
                assert(one_level(s) == crate::topics::is_segment(s));
            }
        },
    }
}

/// A message from the broker does what its command does, and nothing if it is
/// none.
pub proof fn law_handle_mqtt(
    c: &mut Coordinator,
    msg: IncomingPublish,
    out: Vec<Effect>,
    prefix: &str,
    asked: Option<CoordinatorMsg>,
    d: &mut Coordinator,
    same: Vec<Effect>,
)
    requires
        call_ensures(Coordinator::handle_mqtt, (c, &msg), out),
        prefix@ == old(c)@.mqtt.topic_prefix,
        call_ensures(command_of, (prefix, &msg), asked),
        old(d)@ == old(c)@,
        asked matches Some(m) ==> call_ensures(Coordinator::handle, (d, m), same),
    ensures
        asked is None ==> final(c)@ == old(c)@ && out@.len() == 0,
        asked is Some ==> final(c)@ == final(d)@ && effects(out@) == effects(same@),
{
    if asked is None {
        assert(effects(out@).len() == out@.len());
    }
}

/// At the start every known device is told anew, in order, whether it is switched
/// on or not.
pub proof fn law_republish(
    c: Coordinator,
    out: Vec<Effect>,
    i: int,
    rec: DeviceRecord,
    mqtt: MqttConfig,
    hass: HassConfig,
    info: Vec<u8>,
    bundle: Vec<u8>,
)
    requires
        call_ensures(Coordinator::republish_known, (&c,), out),
        0 <= i < c@.db.len(),
        rec@ == c@.db[i],
        mqtt@ == c@.mqtt,
        hass@ == c@.hass,
        call_ensures(device_info_payload, (&rec,), info),
        call_ensures(discovery_payload, (&rec, &mqtt, &hass), bundle),
    ensures
        ({
            let n: int = if c@.hass.enabled {
                3
            } else {
                2
            };
            &&& out@.len() == n * c@.db.len()
            &&& effects(out@).subrange(n * i, n * i + n) == told(
                c@,
                c@.db[i].slug,
                c@.db[i].enabled,
                info@,
                bundle@,
            )
        }),
{
    lemma_told(c@, rec, info, bundle, mqtt, hass);
    lemma_announcement_at(c@, c@.db, i);
    assert(effects(out@).len() == out@.len());
}

proof fn lemma_announcement_at(c: CoordView, devs: Seq<RecordView>, i: int)
    requires
        0 <= i < devs.len(),
    ensures
        ({
            let n: int = if c.hass.enabled {
                3
            } else {
                2
            };
            &&& announcements(c, devs).len() == n * devs.len()
            &&& announcements(c, devs).subrange(n * i, n * i + n) == announcement(c, devs[i])
        }),
    decreases devs.len(),
{
    let init = devs.drop_last();
    let n: int = if c.hass.enabled {
        3
    } else {
        2
    };
    assert(announcement(c, devs.last()).len() == n);
    if init.len() > 0 {
        lemma_announcement_at(
            c,
            init,
            if i < init.len() {
                i
            } else {
                0
            },
        );
    } else {
        assert(announcements(c, init).len() == 0);
    }
    let all = announcements(c, devs);
    if i < init.len() {
        assert(all.subrange(n * i, n * i + n) =~= announcements(c, init).subrange(
            n * i,
            n * i + n,
        ));
    } else {
        assert(all.subrange(n * i, n * i + n) =~= announcement(c, devs.last()));
    }
}

/// At the end every monitor is stopped, and no other.
pub proof fn law_abort_all(c: &mut Coordinator, out: Vec<Effect>, s: Seq<char>)
    requires
        call_ensures(Coordinator::abort_all_monitors, (c,), out),
    ensures
        old(c)@.monitored.contains(s) <==> effects(out@).contains(
            EffectView::StopMonitor { slug: s },
        ),
        forall|k: int|
            0 <= k < out@.len() ==> (#[trigger] effects(out@)[k]) is StopMonitor,
        effects(out@).no_duplicates(),
        !final(c)@.monitored.contains(s),
        final(c)@.db == old(c)@.db,
        final(c)@.connected == old(c)@.connected,
        final(c)@.mqtt == old(c)@.mqtt,
        final(c)@.hass == old(c)@.hass,
{
    let e = effects(out@);
    let stop = |slug: Seq<char>| EffectView::StopMonitor { slug };
    let all = old(c)@.monitored.map(stop);
    assert(e.to_set().contains(stop(s)) == e.contains(stop(s)));
    if old(c)@.monitored.contains(s) {
        assert(all.contains(stop(s)));
    }
    if all.contains(stop(s)) {
        let t = choose|t: Seq<char>| old(c)@.monitored.contains(t) && stop(s) == stop(t);
        assert(t == s);
    }
    assert forall|k: int| 0 <= k < out@.len() implies (#[trigger] e[k]) is StopMonitor by {
        assert(e.contains(e[k]));
        assert(e.to_set().contains(e[k]));
        assert(all.contains(e[k]));
    }
}

} // verus!
