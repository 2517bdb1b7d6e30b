//! What Home Assistant and the clients are told of a device.

use crate::config::{HassConfig, HassView, MqttConfig, MqttView};
use crate::db::{DeviceRecord, RecordView};
use crate::hass::{
    announced_slug, announced_slugs, device_components, device_info_payload, discovery_payload,
    discovery_payload_for, discovery_tree, event_text, ids_of, info_tree, key_name,
    lemma_announced_plain, lemma_components, lemma_first_owns, lemma_first_with_exists,
    lemma_ids_differ, plain, switch_tree, trigger_ids, trigger_tree,
};
use crate::json::{json_document, JsonTree};
use crate::slug::key_slug;
use crate::text::{decimal, texts};
use crate::topics::Action;
use vstd::prelude::*;
use vstd::string::*;

verus! {

/// Whether `t` is an object with the text `s` under `key`.
pub open spec fn says(t: JsonTree, key: Seq<char>, s: Seq<char>) -> bool {
    t matches JsonTree::Object(m) && m.contains_key(key) && m[key] == JsonTree::Text(s)
}

/// Whether `t` is an object with the number `n` under `key`.
pub open spec fn counts(t: JsonTree, key: Seq<char>, n: int) -> bool {
    t matches JsonTree::Object(m) && m.contains_key(key) && m[key] is Uint && m[key]->Uint_0 == n
}

/// Whether `t` is an object that lacks `key`.
pub open spec fn lacks(t: JsonTree, key: Seq<char>) -> bool {
    t matches JsonTree::Object(m) && !m.contains_key(key)
}

/// The member `key` of an object.
pub open spec fn part(t: JsonTree, key: Seq<char>) -> JsonTree {
    t->Object_0[key]
}

/// How many members an object has.
pub open spec fn size(t: JsonTree) -> nat {
    t->Object_0.dom().len()
}

/// Whether `t` describes the device: each of its ids under its own name.
pub open spec fn describes_device(t: JsonTree, r: RecordView) -> bool {
    &&& says(t, "slug"@, r.slug)
    &&& says(
        t,
        "name"@,
        match r.capability_tag {
            Some(tag) => r.name + seq![' ', '('] + tag + seq![')'],
            None => r.name,
        },
    )
    &&& counts(t, "bus"@, r.bus as int)
    &&& counts(t, "vendor"@, r.vendor as int)
    &&& counts(t, "product"@, r.product as int)
    &&& counts(t, "version"@, r.version as int)
    &&& match r.unique_id {
        Some(u) => says(t, "unique_id"@, u) && size(t) == 7,
        None => lacks(t, "unique_id"@) && size(t) == 6,
    }
}

proof fn lemma_info(r: RecordView)
    ensures
        describes_device(info_tree(r), r),
{
    reveal_strlit("slug");
    reveal_strlit("name");
    reveal_strlit("bus");
    reveal_strlit("vendor");
    reveal_strlit("product");
    reveal_strlit("version");
    reveal_strlit("unique_id");
    reveal_strlit(" (");
    reveal_strlit(")");
    assert(" ("@ =~= seq![' ', '(']);
    assert(")"@ =~= seq![')']);
    assert("slug"@[0] == 's' && "name"@[0] == 'n' && "bus"@[0] == 'b');
    assert("product"@[0] == 'p' && "unique_id"@[0] == 'u');
    assert("vendor"@.len() == 6 && "version"@.len() == 7);
    assert("vendor"@[0] == 'v' && "version"@[0] == 'v');
}

/// The description of a device holds its slug, its name and its ids, and nothing
/// else.
pub proof fn law_info_payload(r: DeviceRecord, out: Vec<u8>)
    requires
        call_ensures(device_info_payload, (&r,), out),
    ensures
        out@.len() > 0,
        json_document(out@) matches Some(t) && describes_device(t, r@),
{
    lemma_info(r@);
}

/// Whether `t` is the switch of a device: commands go out on and states come in by
/// the enabled topic, as `on` and `off`, retained.
pub open spec fn is_switch(t: JsonTree, identifier: Seq<char>, topic: Seq<char>) -> bool {
    &&& says(t, "platform"@, "switch"@)
    &&& says(t, "name"@, "Enabled"@)
    &&& says(t, "unique_id"@, identifier + "_enabled"@)
    &&& says(t, "command_topic"@, topic)
    &&& says(t, "state_topic"@, topic)
    &&& says(t, "payload_on"@, "on"@)
    &&& says(t, "payload_off"@, "off"@)
    &&& says(t, "state_on"@, "on"@)
    &&& says(t, "state_off"@, "off"@)
    &&& says(t, "icon"@, "mdi:keyboard"@)
    &&& t matches JsonTree::Object(m) && m.contains_key("retain"@) && m["retain"@]
        == JsonTree::Bool(true)
    &&& size(t) == 11
}

proof fn lemma_switch(identifier: Seq<char>, topic: Seq<char>)
    ensures
        is_switch(switch_tree(identifier, topic), identifier, topic),
{
    reveal_strlit("platform");
    reveal_strlit("name");
    reveal_strlit("unique_id");
    reveal_strlit("command_topic");
    reveal_strlit("state_topic");
    reveal_strlit("payload_on");
    reveal_strlit("payload_off");
    reveal_strlit("state_on");
    reveal_strlit("state_off");
    reveal_strlit("retain");
    reveal_strlit("icon");
    assert("platform"@.len() == 8 && "name"@.len() == 4 && "unique_id"@.len() == 9);
    assert("command_topic"@.len() == 13 && "state_topic"@.len() == 11);
    assert("payload_on"@.len() == 10 && "payload_off"@.len() == 11);
    assert("state_on"@.len() == 8 && "state_off"@.len() == 9);
    assert("retain"@.len() == 6 && "icon"@.len() == 4);
    assert("payload_off"@[0] == 'p' && "state_topic"@[0] == 's' && "state_on"@[0] == 's'
        && "state_off"@[0] == 's' && "platform"@[0] == 'p' && "unique_id"@[0] == 'u'
        && "name"@[0] == 'n' && "icon"@[0] == 'i');
}

/// Whether `t` is a trigger called `id`, which waits for `text` on `topic`.
pub open spec fn is_trigger(
    t: JsonTree,
    kind: Seq<char>,
    id: Seq<char>,
    text: Seq<char>,
    topic: Seq<char>,
) -> bool {
    &&& says(t, "platform"@, "device_automation"@)
    &&& says(t, "automation_type"@, "trigger"@)
    &&& says(t, "type"@, kind)
    &&& says(t, "subtype"@, id)
    &&& says(t, "topic"@, topic)
    &&& says(t, "payload"@, text)
    &&& size(t) == 6
}

proof fn lemma_trigger(id: Seq<char>, kslug: Seq<char>, topic: Seq<char>)
    ensures
        is_trigger(
            trigger_tree(id, kslug, Action::Press, topic),
            "button_short_press"@,
            id,
            kslug + "_press"@,
            topic,
        ),
        is_trigger(
            trigger_tree(id, kslug, Action::Release, topic),
            "button_short_release"@,
            id,
            kslug + "_release"@,
            topic,
        ),
{
    lemma_events(kslug);
    reveal_strlit("platform");
    reveal_strlit("automation_type");
    reveal_strlit("type");
    reveal_strlit("subtype");
    reveal_strlit("topic");
    reveal_strlit("payload");
    assert("platform"@.len() == 8 && "automation_type"@.len() == 15 && "type"@.len() == 4);
    assert("subtype"@.len() == 7 && "topic"@.len() == 5 && "payload"@.len() == 7);
    assert("subtype"@[0] == 's' && "payload"@[0] == 'p');
}

proof fn lemma_events(kslug: Seq<char>)
    ensures
        event_text(kslug, Action::Press) == kslug + "_press"@,
        event_text(kslug, Action::Release) == kslug + "_release"@,
{
    reveal_strlit("_");
    reveal_strlit("press");
    reveal_strlit("release");
    reveal_strlit("_press");
    reveal_strlit("_release");
    assert(event_text(kslug, Action::Press) =~= kslug + "_press"@);
    assert(event_text(kslug, Action::Release) =~= kslug + "_release"@);
}

/// Whether `t` introduces the device: who it is, who made it known, and where it
/// says whether it is there.
pub open spec fn introduces(
    t: JsonTree,
    slug: Seq<char>,
    label: Seq<char>,
    prefix: Seq<char>,
    name: Seq<char>,
) -> bool {
    let dev = part(t, "dev"@);
    let origin = part(t, "o"@);
    &&& t is Object
    &&& says(t, "availability_topic"@, prefix + "/status"@)
    &&& counts(t, "qos"@, 1)
    &&& !lacks(t, "dev"@)
    &&& !lacks(t, "o"@)
    &&& !lacks(t, "cmps"@)
    &&& size(t) == 5
    &&& dev matches JsonTree::Object(m) && m.contains_key("ids"@) && m["ids"@] == JsonTree::List(
        seq![JsonTree::Text(prefix + "_"@ + slug)],
    )
    &&& says(dev, "name"@, name + " - "@ + label)
    &&& says(dev, "mf"@, "evmqtt-rs"@)
    &&& says(dev, "mdl"@, "Input Device ("@ + label + ")"@)
    &&& says(dev, "sw"@, "0.2.0"@)
    &&& size(dev) == 5
    &&& says(origin, "name"@, "evmqtt-rs"@)
    &&& says(origin, "sw"@, "0.2.0"@)
    &&& says(origin, "url"@, "https://github.com/bdolgov/evmqtt-rs"@)
    &&& size(origin) == 3
}

/// The name that a record shows.
pub open spec fn label_of(r: RecordView) -> Seq<char> {
    match r.capability_tag {
        Some(tag) => r.name + seq![' ', '('] + tag + seq![')'],
        None => r.name,
    }
}

proof fn lemma_label(r: RecordView)
    ensures
        r.label() == label_of(r),
{
    reveal_strlit(" (");
    reveal_strlit(")");
    assert(" ("@ =~= seq![' ', '(']);
    assert(")"@ =~= seq![')']);
}

proof fn lemma_introduces(
    r: RecordView,
    kslugs: Seq<Seq<char>>,
    mqtt: MqttView,
    hass: HassView,
)
    ensures
        introduces(
            discovery_tree(r, kslugs, mqtt, hass),
            r.slug,
            label_of(r),
            mqtt.topic_prefix,
            hass.name,
        ),
        part(discovery_tree(r, kslugs, mqtt, hass), "cmps"@) == JsonTree::Object(
            device_components(r, kslugs, mqtt.topic_prefix),
        ),
{
    lemma_label(r);
    reveal_strlit("dev");
    reveal_strlit("o");
    reveal_strlit("availability_topic");
    reveal_strlit("qos");
    reveal_strlit("cmps");
    reveal_strlit("ids");
    reveal_strlit("name");
    reveal_strlit("mf");
    reveal_strlit("mdl");
    reveal_strlit("sw");
    reveal_strlit("url");
    assert("dev"@.len() == 3 && "o"@.len() == 1 && "availability_topic"@.len() == 18);
    assert("qos"@.len() == 3 && "cmps"@.len() == 4 && "ids"@.len() == 3 && "name"@.len() == 4);
    assert("mf"@.len() == 2 && "mdl"@.len() == 3 && "sw"@.len() == 2 && "url"@.len() == 3);
    assert("dev"@[0] == 'd' && "qos"@[0] == 'q' && "ids"@[0] == 'i' && "mdl"@[0] == 'm');
    assert("mf"@[0] == 'm' && "sw"@[0] == 's');
}

/// A device is introduced under its identifier and its name behind that of the
/// installation, and is available as long as the daemon says so on its status
/// topic.
pub proof fn law_bundle(r: DeviceRecord, mqtt: MqttConfig, hass: HassConfig, out: Vec<u8>)
    requires
        call_ensures(discovery_payload, (&r, &mqtt, &hass), out),
    ensures
        json_document(out@) matches Some(t) && {
            &&& introduces(t, r.slug@, label_of(r@), mqtt.topic_prefix@, hass.name@)
            &&& part(t, "cmps"@) matches JsonTree::Object(parts)
            &&& parts.contains_key("enabled"@)
            &&& is_switch(
                parts["enabled"@],
                mqtt.topic_prefix@ + "_"@ + r.slug@,
                mqtt.topic_prefix@ + "/_devices/"@ + r.slug@ + "/enabled"@,
            )
        },
{
    let kslugs = announced_slugs(r@.observed_keys);
    lemma_introduces(r@, kslugs, mqtt@, hass@);
    crate::hass::lemma_switch_component(
        ids_of(r@.observed_keys, kslugs),
        kslugs,
        mqtt.topic_prefix@ + "_"@ + r.slug@,
        mqtt.topic_prefix@ + "/_devices/"@ + r.slug@ + "/enabled"@,
        mqtt.topic_prefix@ + "/"@ + r.slug@ + "/action"@,
    );
    lemma_switch(
        mqtt.topic_prefix@ + "_"@ + r.slug@,
        mqtt.topic_prefix@ + "/_devices/"@ + r.slug@ + "/enabled"@,
    );
}

/// The same for given slugs of the keys.
pub proof fn law_bundle_for(
    r: DeviceRecord,
    kslugs: Vec<String>,
    mqtt: MqttConfig,
    hass: HassConfig,
    out: Vec<u8>,
)
    requires
        call_ensures(discovery_payload_for, (&r, &kslugs, &mqtt, &hass), out),
    ensures
        json_document(out@) matches Some(t) && {
            &&& introduces(t, r.slug@, label_of(r@), mqtt.topic_prefix@, hass.name@)
            &&& part(t, "cmps"@) matches JsonTree::Object(parts)
            &&& parts.contains_key("enabled"@)
            &&& is_switch(
                parts["enabled"@],
                mqtt.topic_prefix@ + "_"@ + r.slug@,
                mqtt.topic_prefix@ + "/_devices/"@ + r.slug@ + "/enabled"@,
            )
        },
{
    lemma_introduces(r@, texts(kslugs@), mqtt@, hass@);
    crate::hass::lemma_switch_component(
        ids_of(r@.observed_keys, texts(kslugs@)),
        texts(kslugs@),
        mqtt.topic_prefix@ + "_"@ + r.slug@,
        mqtt.topic_prefix@ + "/_devices/"@ + r.slug@ + "/enabled"@,
        mqtt.topic_prefix@ + "/"@ + r.slug@ + "/action"@,
    );
    lemma_switch(
        mqtt.topic_prefix@ + "_"@ + r.slug@,
        mqtt.topic_prefix@ + "/_devices/"@ + r.slug@ + "/enabled"@,
    );
}

/// Whether the first key with the slug of the `i`th is another key.
pub open spec fn shared(codes: Seq<u16>, kslugs: Seq<Seq<char>>, i: int) -> bool {
    exists|j: int|
        {
            &&& 0 <= j < i
            &&& #[trigger] kslugs[j] == kslugs[i]
            &&& codes[j] != codes[i]
            &&& forall|k: int| 0 <= k < j ==> #[trigger] kslugs[k] != kslugs[i]
        }
}

/// The id of the `i`th key: its slug, and its code behind that if the slug belongs
/// to another key before it.
pub open spec fn id_at(codes: Seq<u16>, kslugs: Seq<Seq<char>>, i: int) -> Seq<char> {
    if shared(codes, kslugs, i) {
        kslugs[i] + seq!['_'] + decimal(codes[i] as nat)
    } else {
        kslugs[i]
    }
}

proof fn lemma_id_at(codes: Seq<u16>, kslugs: Seq<Seq<char>>, i: int)
    requires
        codes.len() == kslugs.len(),
        0 <= i < codes.len(),
    ensures
        ids_of(codes, kslugs)[i] == id_at(codes, kslugs, i),
{
    reveal_strlit("_");
    assert("_"@ =~= seq!['_']);
    let f = lemma_first_with_exists(kslugs, i, kslugs[i]);
    lemma_first_owns(codes, kslugs, f, codes[i], kslugs[i]);
    if codes[f] != codes[i] {
        assert(kslugs[f] == kslugs[i]);
        assert(shared(codes, kslugs, i));
    } else if shared(codes, kslugs, i) {
        let j = choose|j: int|
            {
                &&& 0 <= j < i
                &&& #[trigger] kslugs[j] == kslugs[i]
                &&& codes[j] != codes[i]
                &&& forall|k: int| 0 <= k < j ==> #[trigger] kslugs[k] != kslugs[i]
            };
        if j < f {
            assert(kslugs[j] != kslugs[i]);
        }
        if f < j {
            assert(kslugs[f] != kslugs[i]);
        }
    }
}

/// The first key with a slug goes by it, a later one by slug and code.
pub proof fn law_trigger_ids(codes: Vec<u16>, kslugs: Vec<String>, out: Vec<String>, i: int)
    requires
        call_ensures(trigger_ids, (&codes, &kslugs), out),
        codes@.len() == kslugs@.len(),
        0 <= i < codes@.len(),
    ensures
        out@.len() == codes@.len(),
        out@[i]@ == id_at(codes@, texts(kslugs@), i),
{
    lemma_id_at(codes@, texts(kslugs@), i);
    assert(texts(out@)[i] == out@[i]@);
}

/// Whether `parts` holds the two triggers of the key called `id`, and what these
/// wait for.
pub open spec fn has_pair(
    parts: Map<Seq<char>, JsonTree>,
    id: Seq<char>,
    kslug: Seq<char>,
    topic: Seq<char>,
) -> bool {
    let (press, release) = (id + "_press"@, id + "_release"@);
    &&& parts.contains_key(press)
    &&& parts.contains_key(release)
    &&& is_trigger(parts[press], "button_short_press"@, id, kslug + "_press"@, topic)
    &&& is_trigger(parts[release], "button_short_release"@, id, kslug + "_release"@, topic)
}

proof fn lemma_pair(r: RecordView, kslugs: Seq<Seq<char>>, prefix: Seq<char>, i: int)
    requires
        r.observed_keys.len() == kslugs.len(),
        plain(kslugs),
        0 <= i < kslugs.len(),
    ensures
        has_pair(
            device_components(r, kslugs, prefix),
            id_at(r.observed_keys, kslugs, i),
            kslugs[i],
            prefix + "/"@ + r.slug + "/action"@,
        ),
{
    let codes = r.observed_keys;
    let ids = ids_of(codes, kslugs);
    let topic = prefix + "/"@ + r.slug + "/action"@;
    lemma_ids_differ(codes, kslugs);
    lemma_components(
        ids,
        kslugs,
        prefix + "_"@ + r.slug,
        prefix + "/_devices/"@ + r.slug + "/enabled"@,
        topic,
    );
    lemma_id_at(codes, kslugs, i);
    lemma_trigger(ids[i], kslugs[i], topic);
    lemma_events(ids[i]);
    assert(ids[i] == id_at(codes, kslugs, i));
    assert(event_text(ids[i], Action::Press) == ids[i] + "_press"@);
    assert(event_text(ids[i], Action::Release) == ids[i] + "_release"@);
}

/// A key is announced under the slug of its name.
pub proof fn law_announced_slug(code: u16, name: String, name_text: &str, kslug: String)
    requires
        call_ensures(key_name, (code,), name),
        name_text@ == name@,
        call_ensures(key_slug, (name_text,), kslug),
    ensures
        announced_slug(code) == kslug@,
{
}

/// Every key that was observed has its two triggers, which wait on the action
/// topic for the events of that key; and there is nothing else but the switch.
pub proof fn law_bundle_triggers(
    r: DeviceRecord,
    mqtt: MqttConfig,
    hass: HassConfig,
    out: Vec<u8>,
    i: int,
)
    requires
        call_ensures(discovery_payload, (&r, &mqtt, &hass), out),
        0 <= i < r.observed_keys@.len(),
    ensures
        json_document(out@) matches Some(t) && {
            let kslugs = announced_slugs(r.observed_keys@);
            &&& part(t, "cmps"@) matches JsonTree::Object(parts)
            &&& parts.dom().len() == 1 + 2 * r.observed_keys@.to_set().len()
            &&& has_pair(
                parts,
                id_at(r.observed_keys@, kslugs, i),
                announced_slug(r.observed_keys@[i]),
                mqtt.topic_prefix@ + "/"@ + r.slug@ + "/action"@,
            )
        },
{
    let kslugs = announced_slugs(r@.observed_keys);
    lemma_announced_plain(r@.observed_keys);
    lemma_introduces(r@, kslugs, mqtt@, hass@);
    crate::hass::lemma_trigger_pair_per_key(r@, kslugs, mqtt@, hass@);
    lemma_pair(r@, kslugs, mqtt.topic_prefix@, i);
}

/// The same for given slugs of the keys.
pub proof fn law_bundle_triggers_for(
    r: DeviceRecord,
    kslugs: Vec<String>,
    mqtt: MqttConfig,
    hass: HassConfig,
    out: Vec<u8>,
    i: int,
)
    requires
        call_ensures(discovery_payload_for, (&r, &kslugs, &mqtt, &hass), out),
        r.observed_keys@.len() == kslugs@.len(),
        forall|k: int| 0 <= k < kslugs@.len() ==> !(#[trigger] kslugs@[k])@.contains('_'),
        0 <= i < kslugs@.len(),
    ensures
        json_document(out@) matches Some(t) && {
            &&& part(t, "cmps"@) matches JsonTree::Object(parts)
            &&& r.observed_keys@.no_duplicates() ==> parts.dom().len() == 1 + 2 * kslugs@.len()
            &&& has_pair(
                parts,
                id_at(r.observed_keys@, texts(kslugs@), i),
                kslugs@[i]@,
                mqtt.topic_prefix@ + "/"@ + r.slug@ + "/action"@,
            )
        },
{
    let all = texts(kslugs@);
    assert forall|k: int| 0 <= k < all.len() implies !(#[trigger] all[k]).contains('_') by {
        assert(all[k] == kslugs@[k]@);
    }
    lemma_introduces(r@, all, mqtt@, hass@);
    lemma_pair(r@, all, mqtt.topic_prefix@, i);
    assert(all[i] == kslugs@[i]@);
}

} // verus!
