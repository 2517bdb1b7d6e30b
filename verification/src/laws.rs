//! What holds of the coordinator as a whole.

use crate::client::{
    gathered, lemma_info_read_back, lemma_last_info_decides, lemma_last_switch_decides, lists,
    unreadable, SnapshotView,
};
use crate::codes::code_leq;
use crate::coordinator::{
    announcement, announcements, bundle_topic, clearings, command, discovery_effects, given,
    info_effect, is_enabled, mirror_effect, mqtt_step, start_effect, step, switch_word, CoordView,
    EffectView, MsgView,
};
use crate::db::{
    after_sighting, first_at, fresh_record, lemma_first_at, lemma_lookup_push, lemma_lookup_taken,
    lemma_match_index, lemma_new_slug_free, lemma_new_slug_safe, lemma_remove_lookup,
    lemma_slugs_stay_unique, lemma_without_unique, lookup, match_index, new_slug, sighted_slug,
    slug_index, slugs_unique, taken, without, RecordView,
};
use crate::discovery::IdentityView;
use crate::hass::{
    announced_id, announced_slug, announced_slugs, device_components, discovery_tree, event_text,
    ids_of, info_tree, lemma_announced_plain, lemma_new_key_adds_pair, lemma_switch_component,
    lemma_trigger_pair_per_key, trigger_tree,
};
use crate::json::{json_document, json_text, text_member, JsonTree};
use crate::mqtt::{clearing, text_publish, PublishView};
use crate::text::{lemma_utf8_round_trip, trimmed, utf8_content};
use crate::topics::{
    action_topic_text, enabled_slug, enabled_topic_text, identifier_text, info_topic_text,
    is_segment, lemma_enabled_topic_round_trip, Action, PAYLOAD_DISABLED, PAYLOAD_ENABLED,
};
use vstd::prelude::*;
use vstd::relations::sorted_by;
use vstd::utf8::encode_utf8;

verus! {

/// Only known devices count as plugged in, and exactly those among them that are
/// switched on are monitored.
pub open spec fn consistent(c: CoordView) -> bool {
    &&& forall|s: Seq<char>| #[trigger] c.connected.contains_key(s) ==> taken(c.db, s)
    &&& forall|s: Seq<char>| #[trigger]
        c.monitored.contains(s) <==> c.connected.contains_key(s) && is_enabled(c.db, s)
}

/// Every slug is a topic level of its own.
pub open spec fn slugs_are_segments(devs: Seq<RecordView>) -> bool {
    forall|i: int| 0 <= i < devs.len() ==> is_segment((#[trigger] devs[i]).slug)
}

/// Replacing a record by one of the same slug moves no slug.
pub proof fn lemma_update_index(devs: Seq<RecordView>, i: int, r: RecordView, s: Seq<char>)
    requires
        0 <= i < devs.len(),
        r.slug == devs[i].slug,
    ensures
        slug_index(devs.update(i, r), s) == slug_index(devs, s),
        taken(devs.update(i, r), s) == taken(devs, s),
{
    let now = devs.update(i, r);
    lemma_lookup_taken(devs, s);
    lemma_lookup_taken(now, s);
    assert forall|k: int| 0 <= k < devs.len() implies (#[trigger] now[k]).slug == devs[k].slug by {}
    if let Some(k) = slug_index(devs, s) {
        assert(first_at(now, k, s)) by {
            assert forall|j: int| 0 <= j < k implies (#[trigger] now[j]).slug != s by {
                assert(devs[j].slug != s);
            }
        }
        lemma_first_at(now, k, s);
    }
    if let Some(k) = slug_index(now, s) {
        assert(devs[k].slug == s);
    }
}

/// A sighting switches no device on or off and forgets none.
proof fn lemma_sighting_state(devs: Seq<RecordView>, id: IdentityView, s: Seq<char>)
    ensures
        taken(devs, s) ==> taken(after_sighting(devs, id), s),
        is_enabled(after_sighting(devs, id), s) == is_enabled(devs, s),
        taken(after_sighting(devs, id), sighted_slug(devs, id)),
{
    let now = after_sighting(devs, id);
    lemma_match_index(devs, id);
    lemma_lookup_taken(devs, s);
    lemma_lookup_taken(now, s);
    match match_index(devs, id) {
        Some(i) => {
            lemma_update_index(devs, i, devs[i].completed(id), s);
            assert(now[i].slug == sighted_slug(devs, id));
        },
        None => {
            let r = fresh_record(id, new_slug(devs, id));
            lemma_new_slug_free(devs, id);
            lemma_lookup_push(devs, r, s);
            assert(now[devs.len() as int].slug == sighted_slug(devs, id));
            if taken(devs, s) {
                let k = choose|k: int| 0 <= k < devs.len() && (#[trigger] devs[k]).slug == s;
                assert(now[k].slug == s);
            }
        },
    }
}

/// The coordinator starts out consistent.
pub proof fn lemma_start_consistent(c: CoordView)
    requires
        c.connected == Map::<Seq<char>, IdentityView>::empty(),
        c.monitored == Set::<Seq<char>>::empty(),
    ensures
        consistent(c),
{
}

/// Every message keeps the coordinator consistent.
pub proof fn lemma_step_consistent(c: CoordView, msg: MsgView)
    requires
        consistent(c),
    ensures
        consistent(step(c, msg).0),
{
    let after = step(c, msg).0;
    match msg {
        MsgView::DeviceConnected(id) => {
            let slug = sighted_slug(c.db, id);
            assert forall|s: Seq<char>| #[trigger] after.connected.contains_key(s) implies taken(
                after.db,
                s,
            ) by {
                lemma_sighting_state(c.db, id, s);
                if s != slug {
                    assert(c.connected.contains_key(s));
                }
            }
            assert forall|s: Seq<char>| #[trigger]
                after.monitored.contains(s) <==> after.connected.contains_key(s) && is_enabled(
                    after.db,
                    s,
                ) by {
                lemma_sighting_state(c.db, id, s);
                assert(c.monitored.contains(s) <==> c.connected.contains_key(s) && is_enabled(
                    c.db,
                    s,
                ));
            }
        },
        MsgView::DeviceDisconnected { slug } => {
            assert forall|s: Seq<char>| #[trigger] after.connected.contains_key(s) implies taken(
                after.db,
                s,
            ) by {
                assert(c.connected.contains_key(s));
            }
            assert forall|s: Seq<char>| #[trigger]
                after.monitored.contains(s) <==> after.connected.contains_key(s) && is_enabled(
                    after.db,
                    s,
                ) by {
                assert(c.monitored.contains(s) <==> c.connected.contains_key(s) && is_enabled(
                    c.db,
                    s,
                ));
            }
        },
        MsgView::KeyObserved { slug, code } => {
            if let Some(i) = slug_index(c.db, slug) {
                lemma_lookup_taken(c.db, slug);
                lemma_same_switch(c, after, i, c.db[i].with_key(code));
            }
        },
        MsgView::EnableCommand { slug, on } => {
            if let Some(i) = slug_index(c.db, slug) {
                lemma_lookup_taken(c.db, slug);
                let r = c.db[i].with_enabled(on);
                if c.db[i].enabled != on {
                    assert forall|s: Seq<char>| #[trigger]
                        after.connected.contains_key(s) implies taken(after.db, s) by {
                        lemma_update_index(c.db, i, r, s);
                        assert(c.connected.contains_key(s));
                    }
                    assert forall|s: Seq<char>| #[trigger]
                        after.monitored.contains(s) <==> after.connected.contains_key(s)
                            && is_enabled(after.db, s) by {
                        lemma_update_index(c.db, i, r, s);
                        lemma_lookup_taken(c.db, s);
                        assert(c.monitored.contains(s) <==> c.connected.contains_key(s)
                            && is_enabled(c.db, s));
                        assert(c.monitored.contains(slug) <==> c.connected.contains_key(slug)
                            && is_enabled(c.db, slug));
                        if s != slug {
                            if let Some(k) = slug_index(c.db, s) {
                                assert(k != i);
                            }
                        }
                    }
                }
            }
        },
        MsgView::RemoveCommand { slug } => {
            if taken(c.db, slug) {
                assert forall|s: Seq<char>| #[trigger]
                    after.connected.contains_key(s) implies taken(after.db, s) by {
                    lemma_remove_lookup(c.db, slug, s);
                    lemma_lookup_taken(c.db, s);
                    lemma_lookup_taken(after.db, s);
                    assert(c.connected.contains_key(s));
                }
                assert forall|s: Seq<char>| #[trigger]
                    after.monitored.contains(s) <==> after.connected.contains_key(s) && is_enabled(
                        after.db,
                        s,
                    ) by {
                    lemma_remove_lookup(c.db, slug, s);
                    assert(c.monitored.contains(s) <==> c.connected.contains_key(s) && is_enabled(
                        c.db,
                        s,
                    ));
                }
            }
        },
    }
}

proof fn lemma_same_switch(c: CoordView, after: CoordView, i: int, r: RecordView)
    requires
        consistent(c),
        0 <= i < c.db.len(),
        r.slug == c.db[i].slug,
        r.enabled == c.db[i].enabled,
        after.db == c.db || after.db == c.db.update(i, r),
        after.connected == c.connected,
        after.monitored == c.monitored,
    ensures
        consistent(after),
{
    assert forall|s: Seq<char>| #[trigger] after.connected.contains_key(s) implies taken(
        after.db,
        s,
    ) by {
        lemma_update_index(c.db, i, r, s);
    }
    assert forall|s: Seq<char>| #[trigger]
        after.monitored.contains(s) <==> after.connected.contains_key(s) && is_enabled(
            after.db,
            s,
        ) by {
        lemma_update_index(c.db, i, r, s);
        lemma_lookup_taken(c.db, s);
    }
}

/// Slugs stay unique, and topic levels of their own, whatever happens.
pub proof fn lemma_step_keeps_slugs(c: CoordView, msg: MsgView)
    requires
        slugs_unique(c.db),
        slugs_are_segments(c.db),
    ensures
        slugs_unique(step(c, msg).0.db),
        slugs_are_segments(step(c, msg).0.db),
{
    let after = step(c, msg).0.db;
    match msg {
        MsgView::DeviceConnected(id) => {
            lemma_slugs_stay_unique(c.db, id, Seq::empty(), 0, true, 0);
            lemma_new_slug_safe(c.db, id);
            lemma_match_index(c.db, id);
        },
        MsgView::DeviceDisconnected { slug } => {},
        MsgView::KeyObserved { slug, code } => {
            lemma_lookup_taken(c.db, slug);
            if let Some(i) = slug_index(c.db, slug) {
                lemma_update_unique(c.db, i, c.db[i].with_key(code));
            }
        },
        MsgView::EnableCommand { slug, on } => {
            lemma_lookup_taken(c.db, slug);
            if let Some(i) = slug_index(c.db, slug) {
                lemma_update_unique(c.db, i, c.db[i].with_enabled(on));
            }
        },
        MsgView::RemoveCommand { slug } => {
            lemma_without_unique(c.db, slug);
            let left = without(c.db, slug);
            assert forall|i: int| 0 <= i < left.len() implies is_segment(
                (#[trigger] left[i]).slug,
            ) by {
                assert(taken(c.db, left[i].slug));
            }
        },
    }
}

proof fn lemma_update_unique(devs: Seq<RecordView>, i: int, r: RecordView)
    requires
        slugs_unique(devs),
        0 <= i < devs.len(),
        r.slug == devs[i].slug,
    ensures
        slugs_unique(devs.update(i, r)),
{
}

/// A slug, once assigned, stays until its device is removed.
pub proof fn lemma_slugs_permanent(c: CoordView, msg: MsgView, s: Seq<char>)
    requires
        taken(c.db, s),
        msg != (MsgView::RemoveCommand { slug: s }),
    ensures
        taken(step(c, msg).0.db, s),
{
    match msg {
        MsgView::DeviceConnected(id) => {
            lemma_sighting_state(c.db, id, s);
        },
        MsgView::DeviceDisconnected { slug } => {},
        MsgView::KeyObserved { slug, code } => {
            lemma_lookup_taken(c.db, slug);
            if let Some(i) = slug_index(c.db, slug) {
                lemma_update_index(c.db, i, c.db[i].with_key(code), s);
            }
        },
        MsgView::EnableCommand { slug, on } => {
            lemma_lookup_taken(c.db, slug);
            if let Some(i) = slug_index(c.db, slug) {
                lemma_update_index(c.db, i, c.db[i].with_enabled(on), s);
            }
        },
        MsgView::RemoveCommand { slug } => {
            lemma_remove_lookup(c.db, slug, s);
            lemma_lookup_taken(c.db, s);
            lemma_lookup_taken(without(c.db, slug), s);
        },
    }
}

/// Commands and keys for one device leave every other device alone.
pub proof fn lemma_commands_are_local(c: CoordView, msg: MsgView, other: Seq<char>)
    requires
        match msg {
            MsgView::DeviceConnected(_) => false,
            MsgView::DeviceDisconnected { slug } => slug != other,
            MsgView::KeyObserved { slug, .. } => slug != other,
            MsgView::EnableCommand { slug, .. } => slug != other,
            MsgView::RemoveCommand { slug } => slug != other,
        },
    ensures
        lookup(step(c, msg).0.db, other) == lookup(c.db, other),
        step(c, msg).0.connected.contains_key(other) == c.connected.contains_key(other),
        c.connected.contains_key(other) ==> step(c, msg).0.connected[other] == c.connected[other],
        step(c, msg).0.monitored.contains(other) == c.monitored.contains(other),
{
    match msg {
        MsgView::DeviceConnected(_) => {},
        MsgView::DeviceDisconnected { slug } => {},
        MsgView::KeyObserved { slug, code } => {
            lemma_lookup_taken(c.db, slug);
            lemma_lookup_taken(c.db, other);
            if let Some(i) = slug_index(c.db, slug) {
                lemma_update_index(c.db, i, c.db[i].with_key(code), other);
            }
        },
        MsgView::EnableCommand { slug, on } => {
            lemma_lookup_taken(c.db, slug);
            lemma_lookup_taken(c.db, other);
            if let Some(i) = slug_index(c.db, slug) {
                lemma_update_index(c.db, i, c.db[i].with_enabled(on), other);
            }
        },
        MsgView::RemoveCommand { slug } => {
            lemma_remove_lookup(c.db, slug, other);
        },
    }
}

/// The database is written exactly when it has changed, and then before anything
/// else happens.
pub proof fn lemma_persist_iff_changed(c: CoordView, msg: MsgView)
    ensures
        ({
            let (after, out) = step(c, msg);
            &&& out.contains(EffectView::Persist) <==> after.db != c.db
            &&& after.db != c.db ==> out.len() > 0 && out[0] == EffectView::Persist
        }),
{
    let (after, out) = step(c, msg);
    match msg {
        MsgView::DeviceConnected(id) => {
            lemma_match_index(c.db, id);
            if match_index(c.db, id) is None {
                assert(after.db.len() == c.db.len() + 1);
            }
            if after.db != c.db {
                assert(out[0] == EffectView::Persist);
            } else {
                lemma_no_persist(out);
            }
        },
        MsgView::DeviceDisconnected { slug } => {
            lemma_no_persist(out);
        },
        MsgView::KeyObserved { slug, code } => {
            lemma_lookup_taken(c.db, slug);
            if let Some(i) = slug_index(c.db, slug) {
                if !c.db[i].observed_keys.contains(code) {
                    crate::db::lemma_key_recorded_once(c.db[i], code);
                    assert(after.db[i] == c.db[i].with_key(code));
                    assert(out[0] == EffectView::Persist);
                }
            }
        },
        MsgView::EnableCommand { slug, on } => {
            lemma_lookup_taken(c.db, slug);
            if let Some(i) = slug_index(c.db, slug) {
                if c.db[i].enabled != on {
                    assert(after.db[i] == c.db[i].with_enabled(on));
                    assert(out[0] == EffectView::Persist);
                }
            }
        },
        MsgView::RemoveCommand { slug } => {
            lemma_lookup_taken(c.db, slug);
            lemma_remove_lookup(c.db, slug, slug);
            if taken(c.db, slug) {
                assert(out[0] == EffectView::Persist);
            }
        },
    }
}

proof fn lemma_no_persist(out: Seq<EffectView>)
    requires
        forall|k: int| 0 <= k < out.len() ==> (#[trigger] out[k]) !is Persist,
    ensures
        !out.contains(EffectView::Persist),
{
}

/// Whatever the coordinator publishes is retained.
pub proof fn lemma_publishes_retained(c: CoordView, msg: MsgView, k: int)
    requires
        0 <= k < step(c, msg).1.len(),
    ensures
        step(c, msg).1[k] matches EffectView::Publish(p) ==> p.retain,
{
}

/// Only a device that is plugged in and switched on is ever monitored, on its own
/// action topic.
pub proof fn lemma_start_only_enabled(c: CoordView, msg: MsgView, k: int)
    requires
        0 <= k < step(c, msg).1.len(),
    ensures
        ({
            let (after, out) = step(c, msg);
            out[k] matches EffectView::StartMonitor { slug, action_topic, identity } ==> {
                &&& is_enabled(after.db, slug)
                &&& after.connected.contains_key(slug)
                &&& after.connected[slug] == identity
                &&& after.monitored.contains(slug)
                &&& action_topic == action_topic_text(c.mqtt.topic_prefix, slug)
            }
        }),
{
    let (after, out) = step(c, msg);
    match msg {
        MsgView::EnableCommand { slug, on } => {
            lemma_lookup_taken(c.db, slug);
            if let Some(i) = slug_index(c.db, slug) {
                lemma_update_index(c.db, i, c.db[i].with_enabled(on), slug);
            }
        },
        _ => {},
    }
}

/// A device that comes back keeps its slug: if it is switched on, its monitor
/// starts again under that slug, and nothing is registered.
pub proof fn lemma_reconnect_resumes(c: CoordView, id: IdentityView)
    requires
        consistent(c),
        match_index(c.db, id) is Some,
        is_enabled(c.db, sighted_slug(c.db, id)),
    ensures
        ({
            let slug = sighted_slug(c.db, id);
            let gone = step(c, MsgView::DeviceDisconnected { slug }).0;
            let (back, out) = step(gone, MsgView::DeviceConnected(id));
            &&& back.db.len() == c.db.len()
            &&& back.connected.contains_key(slug)
            &&& back.monitored.contains(slug)
            &&& out.contains(start_effect(c, slug, id))
        }),
{
    let slug = sighted_slug(c.db, id);
    let gone = step(c, MsgView::DeviceDisconnected { slug }).0;
    let (back, out) = step(gone, MsgView::DeviceConnected(id));
    lemma_match_index(c.db, id);
    lemma_sighting_state(c.db, id, slug);
    assert(out.last() == start_effect(c, slug, id));
}

/// A device seen for the first time is announced, switched off and not monitored.
pub proof fn lemma_new_device_announced(c: CoordView, id: IdentityView)
    requires
        consistent(c),
        match_index(c.db, id) is None,
    ensures
        ({
            let slug = sighted_slug(c.db, id);
            let (after, out) = step(c, MsgView::DeviceConnected(id));
            &&& !taken(c.db, slug)
            &&& taken(after.db, slug)
            &&& !is_enabled(after.db, slug)
            &&& after.connected.contains_key(slug)
            &&& !after.monitored.contains(slug)
            &&& out == seq![EffectView::Persist] + announcement(c, fresh_record(id, slug))
        }),
{
    let slug = sighted_slug(c.db, id);
    let (after, out) = step(c, MsgView::DeviceConnected(id));
    lemma_new_slug_free(c.db, id);
    lemma_lookup_taken(c.db, slug);
    lemma_sighting_state(c.db, id, slug);
    assert(!c.connected.contains_key(slug));
    assert(!c.monitored.contains(slug));
    assert(out =~= seq![EffectView::Persist] + announcement(c, fresh_record(id, slug)));
}

/// A removed device is gone, and its retained topics are cleared.
pub proof fn lemma_remove_forgets(c: CoordView, slug: Seq<char>)
    requires
        taken(c.db, slug),
    ensures
        ({
            let (after, out) = step(c, MsgView::RemoveCommand { slug });
            &&& !taken(after.db, slug)
            &&& !after.connected.contains_key(slug)
            &&& !after.monitored.contains(slug)
            &&& forall|k: int|
                0 <= k < 3 ==> out.contains(#[trigger] clearings(c, slug)[k])
            &&& c.monitored.contains(slug) ==> out.contains(EffectView::StopMonitor { slug })
        }),
{
    let (after, out) = step(c, MsgView::RemoveCommand { slug });
    lemma_remove_lookup(c.db, slug, slug);
    lemma_lookup_taken(after.db, slug);
    let head = seq![EffectView::Persist] + given(
        c.monitored.contains(slug),
        EffectView::StopMonitor { slug },
    );
    assert forall|k: int| 0 <= k < 3 implies out.contains(#[trigger] clearings(c, slug)[k]) by {
        assert(out[head.len() + k] == clearings(c, slug)[k]);
    }
    if c.monitored.contains(slug) {
        assert(out[1] == EffectView::StopMonitor { slug });
    }
}

/// Every device in a list is announced in full.
pub proof fn lemma_all_announced(c: CoordView, devs: Seq<RecordView>, i: int)
    requires
        0 <= i < devs.len(),
    ensures
        announcements(c, devs).contains(info_effect(c, devs[i])),
        announcements(c, devs).contains(mirror_effect(c, devs[i])),
        c.hass.enabled ==> announcements(c, devs).contains(discovery_effects(c, devs[i])[0]),
    decreases devs.len(),
{
    let rest = devs.drop_last();
    let before = announcements(c, rest);
    let all = announcements(c, devs);
    if i < rest.len() {
        lemma_all_announced(c, rest, i);
        lemma_contains_more(before, announcement(c, devs.last()), info_effect(c, devs[i]));
        lemma_contains_more(before, announcement(c, devs.last()), mirror_effect(c, devs[i]));
        if c.hass.enabled {
            lemma_contains_more(
                before,
                announcement(c, devs.last()),
                discovery_effects(c, devs[i])[0],
            );
        }
    } else {
        let n = before.len() as int;
        assert(all[n] == info_effect(c, devs[i]));
        assert(all[n + 1] == mirror_effect(c, devs[i]));
        if c.hass.enabled {
            assert(all[n + 2] == discovery_effects(c, devs[i])[0]);
        }
    }
}

proof fn lemma_contains_more(a: Seq<EffectView>, b: Seq<EffectView>, e: EffectView)
    requires
        a.contains(e),
    ensures
        (a + b).contains(e),
{
    let k = choose|k: int| 0 <= k < a.len() && a[k] == e;
    assert((a + b)[k] == e);
}

/// What a switch word and a clearing say once they have travelled.
pub proof fn lemma_bodies(on: bool)
    ensures
        utf8_content(encode_utf8(switch_word(on))) == Some(switch_word(on)),
        trimmed(switch_word(on)) == switch_word(on),
        switch_word(on).len() > 0,
        PAYLOAD_ENABLED@ != PAYLOAD_DISABLED@,
        utf8_content(Seq::<u8>::empty()) == Some(Seq::<char>::empty()),
        trimmed(Seq::<char>::empty()).len() == 0,
{
    let w = switch_word(on);
    lemma_utf8_round_trip(w);
    reveal_strlit("on");
    reveal_strlit("off");
    assert("on"@.len() != "off"@.len());
    assert(trimmed(w) == w);
    let none = Seq::<char>::empty();
    lemma_utf8_round_trip(none);
    assert(encode_utf8(none) =~= Seq::<u8>::empty());
    assert(trimmed(none) == none);
}

/// The messages a client sends are the commands the daemon reads.
pub proof fn lemma_client_commands(prefix: Seq<char>, slug: Seq<char>, on: bool)
    requires
        is_segment(slug),
    ensures
        command(prefix, text_publish(enabled_topic_text(prefix, slug), switch_word(on), true))
            == Some(MsgView::EnableCommand { slug, on }),
        command(prefix, clearing(enabled_topic_text(prefix, slug))) == Some(
            MsgView::RemoveCommand { slug },
        ),
{
    lemma_enabled_topic_round_trip(prefix, enabled_topic_text(prefix, slug), slug);
    lemma_bodies(on);
}

/// Only an empty payload removes a device and only a switch word switches it:
/// any other payload, text or not, changes nothing and has no effect.
pub proof fn lemma_bad_payload_ignored(c: CoordView, msg: PublishView)
    requires
        utf8_content(msg.payload) matches Some(content) ==> {
            &&& trimmed(content).len() > 0
            &&& trimmed(content) != PAYLOAD_ENABLED@
            &&& trimmed(content) != PAYLOAD_DISABLED@
        },
    ensures
        mqtt_step(c, msg) == (c, Seq::<EffectView>::empty()),
{
}

/// Info topics and discovery topics carry no commands.
proof fn lemma_not_commands(c: CoordView, slug: Seq<char>, payload: Seq<u8>, retain: bool)
    requires
        is_segment(slug),
    ensures
        command(
            c.mqtt.topic_prefix,
            PublishView {
                topic: info_topic_text(c.mqtt.topic_prefix, slug),
                payload,
                retain,
            },
        ) is None,
        command(
            c.mqtt.topic_prefix,
            PublishView { topic: bundle_topic(c, slug), payload, retain },
        ) is None,
{
    let prefix = c.mqtt.topic_prefix;
    let info = info_topic_text(prefix, slug);
    crate::client::lemma_info_topic_round_trip(prefix, info, slug);
    crate::client::lemma_info_and_enabled_disjoint(prefix, info);
    let bundle = bundle_topic(c, slug);
    reveal_strlit("/enabled");
    reveal_strlit("/config");
    assert(bundle.last() == 'g');
    if let Some(s) = enabled_slug(prefix, bundle) {
        lemma_enabled_topic_round_trip(prefix, bundle, s);
        assert(enabled_topic_text(prefix, s).last() == 'd');
    }
}

/// Whether the coordinator does nothing when it hears the message `e` itself.
pub open spec fn absorbed(c: CoordView, e: EffectView) -> bool {
    e matches EffectView::Publish(p) ==> mqtt_step(c, p) == (c, Seq::<EffectView>::empty())
}

/// Echoes are absorbed: the broker hands back what the coordinator published, and
/// none of it makes the coordinator do anything.
pub proof fn lemma_echo_absorbed(c: CoordView, msg: MsgView, k: int)
    requires
        slugs_are_segments(c.db),
        0 <= k < step(c, msg).1.len(),
    ensures
        absorbed(step(c, msg).0, step(c, msg).1[k]),
{
    let (after, out) = step(c, msg);
    match msg {
        MsgView::DeviceConnected(id) => {
            if match_index(c.db, id) is None {
                let slug = sighted_slug(c.db, id);
                let r = fresh_record(id, slug);
                lemma_new_slug_safe(c.db, id);
                lemma_new_slug_free(c.db, id);
                lemma_lookup_taken(c.db, slug);
                lemma_lookup_push(c.db, r, slug);
                lemma_announcement_absorbed(after, r);
                lemma_frame(c, after, r);
                assert(announcement(c, r) == announcement(after, r));
                if 1 <= k < 1 + announcement(after, r).len() {
                    assert(out[k] == announcement(after, r)[k - 1]);
                } else if k == 0 {
                    assert(out[k] is Persist);
                } else {
                    assert(out[k] is StartMonitor);
                }
            } else {
                assert(out[k] !is Publish);
            }
        },
        MsgView::DeviceDisconnected { slug } => {},
        MsgView::KeyObserved { slug, code } => {
            lemma_lookup_taken(c.db, slug);
            if let Some(i) = slug_index(c.db, slug) {
                let r = c.db[i].with_key(code);
                lemma_update_index(c.db, i, r, slug);
                assert(is_segment(c.db[i].slug));
                if !c.db[i].observed_keys.contains(code) {
                    lemma_announcement_absorbed(after, r);
                    lemma_frame(c, after, r);
                    if k == 1 {
                        assert(out[k] == announcement(after, r)[0]);
                    } else if k == 2 {
                        assert(out[k] == announcement(after, r)[2]);
                    }
                }
            }
        },
        MsgView::EnableCommand { slug, on } => {
            lemma_lookup_taken(c.db, slug);
            if let Some(i) = slug_index(c.db, slug) {
                let r = c.db[i].with_enabled(on);
                lemma_update_index(c.db, i, r, slug);
                assert(is_segment(c.db[i].slug));
                if c.db[i].enabled != on {
                    lemma_announcement_absorbed(after, r);
                    lemma_frame(c, after, r);
                    if k == 1 {
                        assert(out[k] == announcement(after, r)[1]);
                    }
                }
            }
        },
        MsgView::RemoveCommand { slug } => {
            if taken(c.db, slug) {
                let i = choose|i: int| 0 <= i < c.db.len() && (#[trigger] c.db[i]).slug == slug;
                assert(is_segment(c.db[i].slug));
                lemma_remove_lookup(c.db, slug, slug);
                lemma_lookup_taken(after.db, slug);
                lemma_client_commands(c.mqtt.topic_prefix, slug, true);
                lemma_not_commands(c, slug, Seq::empty(), true);
            }
        },
    }
}

/// What is published about a device depends only on the settings.
proof fn lemma_frame(c: CoordView, after: CoordView, r: RecordView)
    requires
        after.mqtt == c.mqtt,
        after.hass == c.hass,
    ensures
        info_effect(c, r) == info_effect(after, r),
        mirror_effect(c, r) == mirror_effect(after, r),
        discovery_effects(c, r) == discovery_effects(after, r),
{
}

/// The announcement of a device as it is makes the coordinator do nothing.
proof fn lemma_announcement_absorbed(c: CoordView, r: RecordView)
    requires
        is_segment(r.slug),
        lookup(c.db, r.slug) == Some(r),
    ensures
        forall|k: int|
            0 <= k < announcement(c, r).len() ==> absorbed(c, #[trigger] announcement(c, r)[k]),
{
    lemma_client_commands(c.mqtt.topic_prefix, r.slug, r.enabled);
    lemma_not_commands(c, r.slug, json_text(info_tree(r)), true);
    lemma_not_commands(
        c,
        r.slug,
        json_text(discovery_tree(r, announced_slugs(r.observed_keys), c.mqtt, c.hass)),
        true,
    );
    let all = announcement(c, r);
    assert(all[0] == info_effect(c, r));
    assert(all[1] == mirror_effect(c, r));
    if c.hass.enabled {
        assert(all[2] == discovery_effects(c, r)[0]);
    }
}

/// The announcements at start-up are absorbed too.
pub proof fn lemma_republish_absorbed(c: CoordView, devs: Seq<RecordView>, k: int)
    requires
        slugs_unique(c.db),
        slugs_are_segments(c.db),
        devs.is_prefix_of(c.db),
        0 <= k < announcements(c, devs).len(),
    ensures
        absorbed(c, announcements(c, devs)[k]),
    decreases devs.len(),
{
    let rest = devs.drop_last();
    let n = announcements(c, rest).len();
    if k < n {
        lemma_republish_absorbed(c, rest, k);
    } else {
        let i = devs.len() - 1;
        let r = devs.last();
        assert(c.db[i] == r);
        assert(first_at(c.db, i, r.slug));
        lemma_first_at(c.db, i, r.slug);
        lemma_announcement_absorbed(c, r);
        assert(announcements(c, devs)[k] == announcement(c, r)[k - n]);
    }
}

/// Switching a device to what it already is does nothing.
pub proof fn lemma_enable_idempotent(c: CoordView, slug: Seq<char>, on: bool)
    ensures
        ({
            let once = step(c, MsgView::EnableCommand { slug, on }).0;
            step(once, MsgView::EnableCommand { slug, on }) == (once, Seq::<EffectView>::empty())
        }),
{
    lemma_lookup_taken(c.db, slug);
    if let Some(i) = slug_index(c.db, slug) {
        lemma_update_index(c.db, i, c.db[i].with_enabled(on), slug);
    }
}

/// A key is announced once: seeing it again does nothing.
pub proof fn lemma_key_idempotent(c: CoordView, slug: Seq<char>, code: u16)
    ensures
        ({
            let once = step(c, MsgView::KeyObserved { slug, code }).0;
            step(once, MsgView::KeyObserved { slug, code }) == (once, Seq::<EffectView>::empty())
        }),
{
    lemma_lookup_taken(c.db, slug);
    if let Some(i) = slug_index(c.db, slug) {
        lemma_update_index(c.db, i, c.db[i].with_key(code), slug);
        crate::db::lemma_key_recorded_once(c.db[i], code);
    }
}

/// The state after some messages.
pub open spec fn state_after(c: CoordView, msgs: Seq<MsgView>) -> CoordView
    decreases msgs.len(),
{
    if msgs.len() == 0 {
        c
    } else {
        step(state_after(c, msgs.drop_last()), msgs.last()).0
    }
}

/// Whatever happens to a coordinator that starts with a sound database, it stays
/// consistent and its slugs stay unique topic levels. Its settings never change.
pub proof fn lemma_always_consistent(c: CoordView, msgs: Seq<MsgView>)
    requires
        c.connected == Map::<Seq<char>, IdentityView>::empty(),
        c.monitored == Set::<Seq<char>>::empty(),
        slugs_unique(c.db),
        slugs_are_segments(c.db),
    ensures
        consistent(state_after(c, msgs)),
        slugs_unique(state_after(c, msgs).db),
        slugs_are_segments(state_after(c, msgs).db),
        state_after(c, msgs).mqtt == c.mqtt,
        state_after(c, msgs).hass == c.hass,
    decreases msgs.len(),
{
    if msgs.len() > 0 {
        let before = state_after(c, msgs.drop_last());
        lemma_always_consistent(c, msgs.drop_last());
        lemma_step_consistent(before, msgs.last());
        lemma_step_keeps_slugs(before, msgs.last());
    } else {
        lemma_start_consistent(c);
    }
}

/// A key pressed for the first time is announced: the bundle that is published
/// then has triggers for this key and for every key known before. It has exactly
/// two components more than before. Where the keys known before are in ascending
/// order, as the daemon keeps them, all others stay as they were.
pub proof fn lemma_new_key_announced(c: CoordView, slug: Seq<char>, code: u16, k: u16, a: Action)
    requires
        lookup(c.db, slug) matches Some(r) && !r.observed_keys.contains(code) && (k == code
            || r.observed_keys.contains(k)),
        c.hass.enabled,
    ensures
        ({
            let old_r = lookup(c.db, slug)->0;
            let r = old_r.with_key(code);
            let kslugs = announced_slugs(r.observed_keys);
            let bundle = discovery_tree(r, kslugs, c.mqtt, c.hass);
            let topic = action_topic_text(c.mqtt.topic_prefix, slug);
            let id = announced_id(r.observed_keys, k);
            let before = device_components(
                old_r,
                announced_slugs(old_r.observed_keys),
                c.mqtt.topic_prefix,
            );
            let parts = device_components(r, kslugs, c.mqtt.topic_prefix);
            let (after, out) = step(c, MsgView::KeyObserved { slug, code });
            &&& lookup(after.db, slug) == Some(r)
            &&& r.observed_keys.contains(k)
            &&& out.contains(discovery_effects(c, r)[0])
            &&& discovery_effects(c, r)[0] == EffectView::Publish(
                PublishView {
                    topic: bundle_topic(c, slug),
                    payload: json_text(bundle),
                    retain: true,
                },
            )
            &&& bundle.member("cmps"@) == Some(JsonTree::Object(parts))
            &&& parts.contains_key(event_text(id, a))
            &&& parts[event_text(id, a)] == trigger_tree(id, announced_slug(k), a, topic)
            &&& parts.dom().len() == before.dom().len() + 2
            &&& sorted_by(old_r.observed_keys, code_leq()) ==> before.submap_of(parts)
        }),
{
    lemma_lookup_taken(c.db, slug);
    let i = slug_index(c.db, slug)->0;
    let r = c.db[i].with_key(code);
    lemma_update_index(c.db, i, r, slug);
    crate::db::lemma_key_recorded_once(c.db[i], code);
    let out = step(c, MsgView::KeyObserved { slug, code }).1;
    assert(out[2] == discovery_effects(c, r)[0]);
    assert(r.observed_keys.contains(k));
    let kslugs = announced_slugs(r.observed_keys);
    let j = choose|j: int| 0 <= j < r.observed_keys.len() && r.observed_keys[j] == k;
    assert(kslugs[j] == announced_slug(k));
    lemma_announced_plain(r.observed_keys);
    lemma_trigger_pair_per_key(r, kslugs, c.mqtt, c.hass);
    lemma_new_key_adds_pair(c.db[i], code, c.mqtt.topic_prefix);
    let ids = ids_of(r.observed_keys, kslugs);
    assert(event_text(ids[j], a) == event_text(announced_id(r.observed_keys, k), a));
}

/// A listing shows a device as the daemon described it last: names, ids and
/// switch.
pub proof fn lemma_listing_shows_device(
    prefix: Seq<char>,
    msgs: Seq<PublishView>,
    i: int,
    j: int,
    r: RecordView,
    out: Seq<SnapshotView>,
)
    requires
        is_segment(r.slug),
        0 <= i < msgs.len(),
        msgs[i].topic == info_topic_text(prefix, r.slug),
        msgs[i].payload.len() > 0,
        json_document(msgs[i].payload) == Some(info_tree(r)),
        forall|k: int|
            i < k < msgs.len() && (#[trigger] msgs[k]).topic == info_topic_text(prefix, r.slug)
                ==> unreadable(msgs[k].payload),
        0 <= j < msgs.len(),
        msgs[j] == text_publish(
            enabled_topic_text(prefix, r.slug),
            switch_word(r.enabled),
            true,
        ),
        forall|k: int|
            j < k < msgs.len() ==> (#[trigger] msgs[k]).topic != enabled_topic_text(
                prefix,
                r.slug,
            ),
        lists(gathered(prefix, msgs), out),
    ensures
        out.contains(
            SnapshotView {
                slug: r.slug,
                name: r.label(),
                unique_id: r.unique_id,
                bus: r.bus,
                vendor: r.vendor,
                product: r.product,
                version: r.version,
                enabled: Some(r.enabled),
            },
        ),
{
    let g = gathered(prefix, msgs);
    lemma_bodies(r.enabled);
    lemma_last_info_decides(prefix, msgs, i, r.slug, info_tree(r));
    lemma_last_switch_decides(prefix, msgs, j, r.slug, r.enabled);
    lemma_info_read_back(r, Some(r.enabled));
    let slugs = out.map_values(|s: SnapshotView| s.slug);
    assert(slugs.contains(r.slug));
    let n = choose|n: int| 0 <= n < slugs.len() && slugs[n] == r.slug;
    assert(out[n].slug == r.slug);
}

/// Every topic on which a device was announced is cleared when it is removed.
pub proof fn lemma_remove_clears_announcement(c: CoordView, r: RecordView, k: int)
    requires
        taken(c.db, r.slug),
        0 <= k < announcement(c, r).len(),
    ensures
        ({
            let out = step(c, MsgView::RemoveCommand { slug: r.slug }).1;
            announcement(c, r)[k] matches EffectView::Publish(p) && out.contains(
                EffectView::Publish(clearing(p.topic)),
            )
        }),
{
    lemma_remove_forgets(c, r.slug);
    let gone = clearings(c, r.slug);
    let all = announcement(c, r);
    if k == 0 {
        assert(all[0] == info_effect(c, r));
        assert(gone[0] == EffectView::Publish(clearing(info_topic_text(c.mqtt.topic_prefix, r.slug))));
    } else if k == 1 {
        assert(all[1] == mirror_effect(c, r));
        assert(gone[1] == EffectView::Publish(
            clearing(enabled_topic_text(c.mqtt.topic_prefix, r.slug)),
        ));
    } else {
        assert(all[2] == discovery_effects(c, r)[0]);
        assert(gone[2] == EffectView::Publish(clearing(bundle_topic(c, r.slug))));
    }
}

/// The switch in a device's bundle is wired to the daemon: what Home Assistant
/// sends when it is flipped is the command to enable or disable that device, and
/// the topic and words it shows the state by are those of the mirror.
pub proof fn lemma_switch_is_wired(c: CoordView, r: RecordView, kslugs: Seq<Seq<char>>, on: bool)
    requires
        is_segment(r.slug),
    ensures
        ({
            let bundle = discovery_tree(r, kslugs, c.mqtt, c.hass);
            let topic = enabled_topic_text(c.mqtt.topic_prefix, r.slug);
            let flip = if on {
                "payload_on"@
            } else {
                "payload_off"@
            };
            let shown = if on {
                "state_on"@
            } else {
                "state_off"@
            };
            &&& bundle.member("cmps"@) matches Some(parts)
            &&& parts.member("enabled"@) matches Some(switch)
            &&& text_member(switch, "command_topic"@) == Some(topic)
            &&& text_member(switch, flip) == Some(switch_word(on))
            &&& text_member(switch, "state_topic"@) == Some(topic)
            &&& text_member(switch, shown) == Some(switch_word(on))
            &&& command(
                c.mqtt.topic_prefix,
                text_publish(topic, switch_word(on), true),
            ) == Some(MsgView::EnableCommand { slug: r.slug, on })
        }),
{
    let prefix = c.mqtt.topic_prefix;
    lemma_client_commands(prefix, r.slug, on);
    lemma_switch_component(
        ids_of(r.observed_keys, kslugs),
        kslugs,
        identifier_text(prefix, r.slug),
        enabled_topic_text(prefix, r.slug),
        action_topic_text(prefix, r.slug),
    );
    reveal_strlit("platform");
    reveal_strlit("name");
    reveal_strlit("unique_id");
    reveal_strlit("command_topic");
    reveal_strlit("state_topic");
    reveal_strlit("payload_on");
    reveal_strlit("payload_off");
    reveal_strlit("state_on");
    reveal_strlit("state_off");
    reveal_strlit("retain");
    reveal_strlit("icon");
    assert("platform"@.len() == 8 && "name"@.len() == 4 && "unique_id"@.len() == 9);
    assert("command_topic"@.len() == 13 && "state_topic"@.len() == 11);
    assert("payload_on"@.len() == 10 && "payload_off"@.len() == 11);
    assert("state_on"@.len() == 8 && "state_off"@.len() == 9);
    assert("retain"@.len() == 6 && "icon"@.len() == 4);
    assert("payload_off"@[0] == 'p' && "state_topic"@[0] == 's' && "state_on"@[0] == 's'
        && "state_off"@[0] == 's' && "platform"@[0] == 'p' && "unique_id"@[0] == 'u');
}

} // verus!
