//! Home Assistant payloads: the device-info JSON and the discovery bundle.

use crate::codes::{code_leq, lemma_sorted_codes_ensures, sorted_codes};
use crate::config::{HassConfig, HassView, MqttConfig, MqttView};
use crate::db::{DeviceRecord, RecordView};
use crate::json::{
    json_bool, json_bytes, json_document, json_list, json_object, json_string, json_text, members,
    object_insert, object_new, put_text, put_uint, tree, trees, JsonTree, MAX_DEPTH,
};
use crate::slug::{key_slug, key_stem, lemma_slug_well_formed, slug};
use crate::text::{
    chars_of, decimal, decimal_text, has_prefix, lemma_decimal_injective, starts, text_eq, texts,
};
use crate::topics::{
    action_topic, action_topic_text, availability_topic, availability_topic_text,
    device_enabled_topic, device_identifier, enabled_topic_text, identifier_text, Action,
    PAYLOAD_DISABLED, PAYLOAD_ENABLED,
};
use vstd::prelude::*;
use vstd::relations::sorted_by;
use vstd::string::*;

verus! {

pub const ORIGIN_NAME: &'static str = "evmqtt-rs";

pub const ORIGIN_URL: &'static str = "https://github.com/bdolgov/evmqtt-rs";

pub const MANUFACTURER: &'static str = "evmqtt-rs";

/// The version of this crate.
pub const VERSION: &'static str = "0.2.0";

/// The text `evdev` shows for a key code in debug format.
pub uninterp spec fn key_code_text(code: u16) -> Seq<char>;

/// `evdev::KeyCode`'s debug format: the symbolic name of a known code, else some
/// text with the number. Which codes have which name is left to `evdev`.
#[verifier::external_body]
pub(crate) fn key_code_debug(code: u16) -> (res: String)
    ensures
        res@ == key_code_text(code),
{
    format!("{:?}", evdev::KeyCode::new(code))
}

/// Whether `shown` is a symbolic key name.
pub open spec fn symbolic(shown: Seq<char>) -> bool {
    starts(shown, "KEY_"@) || starts(shown, "BTN_"@)
}

/// The name of the key `code`, which `evdev` shows as `shown`.
pub open spec fn key_label(code: u16, shown: Seq<char>) -> Seq<char> {
    if symbolic(shown) {
        shown
    } else {
        "KEY_"@ + decimal(code as nat)
    }
}

/// Resolve a u16 evdev code to its symbolic name (`KEY_VOLUMEUP`),
/// falling back to a decimal form for unknown codes.
pub fn key_name(code: u16) -> (out: String)
    ensures
        out@ == key_label(code, key_code_text(code)),
{
    key_name_from(code, key_code_debug(code))
}

/// The name of the key `code`, given what `evdev` shows for it.
pub fn key_name_from(code: u16, shown: String) -> (out: String)
    ensures
        out@ == key_label(code, shown@),
{
    let chars = chars_of(shown.as_str());
    if has_prefix(&chars, &chars_of("KEY_")) || has_prefix(&chars, &chars_of("BTN_")) {
        shown
    } else {
        let mut out: String = "KEY_".to_owned();
        out.append(decimal_text(code as u128).as_str());
        out
    }
}

/// The slug under which the key `code` is announced.
pub open spec fn announced_slug(code: u16) -> Seq<char> {
    slug(key_stem(key_label(code, key_code_text(code))))
}

/// The slugs under which keys are announced.
pub open spec fn announced_slugs(codes: Seq<u16>) -> Seq<Seq<char>> {
    codes.map_values(|c: u16| announced_slug(c))
}

/// `text` as a document.
pub open spec fn leaf(text: Seq<char>) -> JsonTree {
    JsonTree::Text(text)
}

/// The document that describes a device.
pub open spec fn info_tree(r: RecordView) -> JsonTree {
    let m =
        map![
        "slug"@ => leaf(r.slug),
        "name"@ => leaf(r.label()),
        "bus"@ => JsonTree::Uint(r.bus as u64),
        "vendor"@ => JsonTree::Uint(r.vendor as u64),
        "product"@ => JsonTree::Uint(r.product as u64),
        "version"@ => JsonTree::Uint(r.version as u64),
    ];
    JsonTree::Object(
        match r.unique_id {
            Some(u) => m.insert("unique_id"@, leaf(u)),
            None => m,
        },
    )
}

/// Build the retained device-info JSON that lives at
/// `{prefix}/_devices/{slug}`. Carries identifying fields only; the
/// list of observed keys does not appear here. Observed keys surface
/// as HA discovery triggers, and republishing the info topic on
/// every new key would just duplicate that information.
pub fn device_info_payload(record: &DeviceRecord) -> (out: Vec<u8>)
    ensures
        out@ == json_text(info_tree(record@)),
        json_document(out@) == Some(info_tree(record@)),
        out@.len() > 0,
{
    let mut m = object_new();
    put_text(&mut m, "slug", record.slug.clone());
    put_text(&mut m, "name", record.display_name());
    put_uint(&mut m, "bus", record.bus as u64);
    put_uint(&mut m, "vendor", record.vendor as u64);
    put_uint(&mut m, "product", record.product as u64);
    put_uint(&mut m, "version", record.version as u64);
    if let Some(u) = &record.unique_id {
        put_text(&mut m, "unique_id", u.clone());
    }
    let v = json_object(m);
    proof {
        assert(tree(v) == info_tree(record@));
        lemma_info_simple(record@);
    }
    json_bytes(&v)
}

proof fn lemma_info_simple(r: RecordView)
    ensures
        info_tree(r).simple(MAX_DEPTH as nat),
{
    reveal_with_fuel(JsonTree::simple, 2);
}

/// The "Enabled" switch of a device.
pub open spec fn switch_tree(identifier: Seq<char>, topic: Seq<char>) -> JsonTree {
    JsonTree::Object(
        map![
            "platform"@ => leaf("switch"@),
            "name"@ => leaf("Enabled"@),
            "unique_id"@ => leaf(identifier + "_enabled"@),
            "command_topic"@ => leaf(topic),
            "state_topic"@ => leaf(topic),
            "payload_on"@ => leaf(PAYLOAD_ENABLED@),
            "payload_off"@ => leaf(PAYLOAD_DISABLED@),
            "state_on"@ => leaf(PAYLOAD_ENABLED@),
            "state_off"@ => leaf(PAYLOAD_DISABLED@),
            "retain"@ => JsonTree::Bool(true),
            "icon"@ => leaf("mdi:keyboard"@),
        ],
    )
}

/// What the action topic carries when `action` happens to the key `kslug`.
pub open spec fn event_text(kslug: Seq<char>, action: Action) -> Seq<char> {
    kslug + "_"@ + action.word()
}

/// Whether position `j` is the first that holds the slug `s`.
pub open spec fn first_with(kslugs: Seq<Seq<char>>, j: int, s: Seq<char>) -> bool {
    &&& 0 <= j < kslugs.len()
    &&& kslugs[j] == s
    &&& forall|k: int| 0 <= k < j ==> #[trigger] kslugs[k] != s
}

/// Whether `code` is the first of `codes` with the slug `s`.
pub open spec fn owns_slug(
    codes: Seq<u16>,
    kslugs: Seq<Seq<char>>,
    code: u16,
    s: Seq<char>,
) -> bool {
    exists|j: int| #[trigger] first_with(kslugs, j, s) && codes[j] == code
}

/// What tells the key `code` with the slug `s` from the other keys of its device:
/// the slug, with the code behind it if the slug belongs to another key already.
pub open spec fn trigger_id(
    codes: Seq<u16>,
    kslugs: Seq<Seq<char>>,
    code: u16,
    s: Seq<char>,
) -> Seq<char> {
    if owns_slug(codes, kslugs, code, s) {
        s
    } else {
        s + "_"@ + decimal(code as nat)
    }
}

/// The ids of the keys `codes`, whose slugs are `kslugs`.
pub open spec fn ids_of(codes: Seq<u16>, kslugs: Seq<Seq<char>>) -> Seq<Seq<char>> {
    Seq::new(kslugs.len(), |i: int| trigger_id(codes, kslugs, codes[i], kslugs[i]))
}

/// The id of the key `code` of a device with the keys `codes`.
pub open spec fn announced_id(codes: Seq<u16>, code: u16) -> Seq<char> {
    trigger_id(codes, announced_slugs(codes), code, announced_slug(code))
}

/// The trigger for `action` on the key `id`, whose slug is `kslug`.
pub open spec fn trigger_tree(
    id: Seq<char>,
    kslug: Seq<char>,
    action: Action,
    topic: Seq<char>,
) -> JsonTree {
    JsonTree::Object(
        map![
            "platform"@ => leaf("device_automation"@),
            "automation_type"@ => leaf("trigger"@),
            "type"@ => leaf(action.trigger_type()),
            "subtype"@ => leaf(id),
            "topic"@ => leaf(topic),
            "payload"@ => leaf(event_text(kslug, action)),
        ],
    )
}

/// The components of a device: the switch, and a pair of triggers per key.
pub open spec fn components(
    ids: Seq<Seq<char>>,
    kslugs: Seq<Seq<char>>,
    identifier: Seq<char>,
    enabled_topic: Seq<char>,
    topic: Seq<char>,
) -> Map<Seq<char>, JsonTree>
    decreases ids.len(),
{
    if ids.len() == 0 {
        map!["enabled"@ => switch_tree(identifier, enabled_topic)]
    } else {
        let id = ids.last();
        let k = kslugs.last();
        components(ids.drop_last(), kslugs.drop_last(), identifier, enabled_topic, topic).insert(
            event_text(id, Action::Press),
            trigger_tree(id, k, Action::Press, topic),
        ).insert(event_text(id, Action::Release), trigger_tree(id, k, Action::Release, topic))
    }
}

/// The components of a device whose keys have the slugs `kslugs`.
pub open spec fn device_components(
    r: RecordView,
    kslugs: Seq<Seq<char>>,
    prefix: Seq<char>,
) -> Map<Seq<char>, JsonTree> {
    components(
        ids_of(r.observed_keys, kslugs),
        kslugs,
        identifier_text(prefix, r.slug),
        enabled_topic_text(prefix, r.slug),
        action_topic_text(prefix, r.slug),
    )
}

/// The discovery bundle of a device whose keys have the slugs `kslugs`.
pub open spec fn discovery_tree(
    r: RecordView,
    kslugs: Seq<Seq<char>>,
    mqtt: MqttView,
    hass: HassView,
) -> JsonTree {
    let prefix = mqtt.topic_prefix;
    let identifier = identifier_text(prefix, r.slug);
    JsonTree::Object(
        map![
            "dev"@ => JsonTree::Object(
                map![
                    "ids"@ => JsonTree::List(seq![leaf(identifier)]),
                    "name"@ => leaf(hass.name + " - "@ + r.label()),
                    "mf"@ => leaf(MANUFACTURER@),
                    "mdl"@ => leaf("Input Device ("@ + r.label() + ")"@),
                    "sw"@ => leaf(VERSION@),
                ],
            ),
            "o"@ => JsonTree::Object(
                map![
                    "name"@ => leaf(ORIGIN_NAME@),
                    "sw"@ => leaf(VERSION@),
                    "url"@ => leaf(ORIGIN_URL@),
                ],
            ),
            "availability_topic"@ => leaf(availability_topic_text(prefix)),
            "qos"@ => JsonTree::Uint(1),
            "cmps"@ => JsonTree::Object(device_components(r, kslugs, prefix)),
        ],
    )
}

/// What the action topic carries when `action` happens to the key `kslug`.
pub fn event_payload(kslug: &str, action: Action) -> (out: String)
    ensures
        out@ == event_text(kslug@, action),
{
    let mut out: String = kslug.to_owned();
    out.append("_");
    out.append(action.as_str());
    out
}

fn switch_component(identifier: &str, topic: &str) -> (out: serde_json::Value)
    ensures
        tree(out) == switch_tree(identifier@, topic@),
{
    let mut unique_id: String = identifier.to_owned();
    unique_id.append("_enabled");
    let mut m = object_new();
    put_text(&mut m, "platform", "switch".to_owned());
    put_text(&mut m, "name", "Enabled".to_owned());
    put_text(&mut m, "unique_id", unique_id);
    put_text(&mut m, "command_topic", topic.to_owned());
    put_text(&mut m, "state_topic", topic.to_owned());
    put_text(&mut m, "payload_on", PAYLOAD_ENABLED.to_owned());
    put_text(&mut m, "payload_off", PAYLOAD_DISABLED.to_owned());
    put_text(&mut m, "state_on", PAYLOAD_ENABLED.to_owned());
    put_text(&mut m, "state_off", PAYLOAD_DISABLED.to_owned());
    object_insert(&mut m, "retain".to_owned(), json_bool(true));
    put_text(&mut m, "icon", "mdi:keyboard".to_owned());
    json_object(m)
}

fn trigger_component(id: &str, kslug: &str, action: Action, topic: &str) -> (out:
    serde_json::Value)
    ensures
        tree(out) == trigger_tree(id@, kslug@, action, topic@),
{
    let mut m = object_new();
    put_text(&mut m, "platform", "device_automation".to_owned());
    put_text(&mut m, "automation_type", "trigger".to_owned());
    put_text(&mut m, "type", action.ha_type().to_owned());
    put_text(&mut m, "subtype", id.to_owned());
    put_text(&mut m, "topic", topic.to_owned());
    put_text(&mut m, "payload", event_payload(kslug, action));
    json_object(m)
}

/// Build the retained HA per-device discovery payload that lives at
/// `{hass.discovery_prefix}/device/{identifier}/config`.
///
/// Always includes the "Enabled" switch. Adds a (press, release)
/// trigger pair for every key in `record.observed_keys`. Where keys have the
/// same slug (`KEY_LEFT` and `BTN_LEFT`), all but the first are told apart by
/// their codes.
pub fn discovery_payload(record: &DeviceRecord, mqtt: &MqttConfig, hass: &HassConfig) -> (out: Vec<
    u8,
>)
    ensures
        out@ == json_text(
            discovery_tree(record@, announced_slugs(record@.observed_keys), mqtt@, hass@),
        ),
        json_document(out@) == Some(
            discovery_tree(record@, announced_slugs(record@.observed_keys), mqtt@, hass@),
        ),
        record@.observed_keys.no_duplicates() ==> device_components(
            record@,
            announced_slugs(record@.observed_keys),
            mqtt@.topic_prefix,
        ).dom().len() == 1 + 2 * record@.observed_keys.len(),
{
    let mut kslugs: Vec<String> = Vec::new();
    let mut i: usize = 0;
    while i < record.observed_keys.len()
        invariant
            i <= record.observed_keys@.len(),
            texts(kslugs@) == announced_slugs(record.observed_keys@.take(i as int)),
        decreases record.observed_keys@.len() - i,
    {
        let ghost before = kslugs@;
        let code: u16 = record.observed_keys[i];
        kslugs.push(key_slug(key_name(code).as_str()));
        i += 1;
        proof {
            let codes = record.observed_keys@;
            assert(codes.take(i as int) =~= codes.take(i - 1).push(code));
            assert(texts(kslugs@) =~= texts(before).push(announced_slug(code)));
            assert(announced_slugs(codes.take(i as int)) =~= announced_slugs(
                codes.take(i - 1),
            ).push(announced_slug(code)));
        }
    }
    assert(record.observed_keys@.take(i as int) =~= record.observed_keys@);
    proof {
        lemma_announced_plain(record@.observed_keys);
    }
    discovery_payload_for(record, &kslugs, mqtt, hass)
}

/// Slugs hold no underscore.
pub open spec fn plain(kslugs: Seq<Seq<char>>) -> bool {
    forall|i: int| 0 <= i < kslugs.len() ==> !(#[trigger] kslugs[i]).contains('_')
}

/// What tells each of the keys `codes`, whose slugs are `kslugs`, from the
/// others: the first key with a slug goes by the slug, a later one by slug and
/// code.
pub fn trigger_ids(codes: &Vec<u16>, kslugs: &Vec<String>) -> (out: Vec<String>)
    requires
        codes@.len() == kslugs@.len(),
    ensures
        texts(out@) == ids_of(codes@, texts(kslugs@)),
        out@.len() == kslugs@.len(),
        forall|i: int|
            0 <= i < out@.len() && (forall|j: int|
                0 <= j < i ==> (#[trigger] kslugs@[j])@ != kslugs@[i]@) ==> (#[trigger] out@[i])@
                == kslugs@[i]@,
        plain(texts(kslugs@)) ==> forall|i: int, j: int|
            0 <= i < out@.len() && 0 <= j < out@.len() && codes@[i] != codes@[j] ==> (
            #[trigger] out@[i])@ != (#[trigger] out@[j])@,
{
    let ghost all = texts(kslugs@);
    let mut out: Vec<String> = Vec::new();
    let mut i: usize = 0;
    while i < kslugs.len()
        invariant
            all == texts(kslugs@),
            codes@.len() == kslugs@.len(),
            i <= kslugs@.len(),
            out@.len() == i,
            forall|n: int|
                0 <= n < i ==> (#[trigger] out@[n])@ == trigger_id(
                    codes@,
                    all,
                    codes@[n],
                    all[n],
                ),
        decreases kslugs@.len() - i,
    {
        let k = kslugs[i].as_str();
        let mut j: usize = 0;
        while j < i && !text_eq(kslugs[j].as_str(), k)
            invariant
                all == texts(kslugs@),
                i < kslugs@.len(),
                j <= i,
                k@ == all[i as int],
                forall|n: int| 0 <= n < j ==> #[trigger] all[n] != k@,
            decreases i - j,
        {
            assert(all[j as int] == kslugs@[j as int]@);
            j += 1;
        }
        assert(all[j as int] == kslugs@[j as int]@);
        assert(first_with(all, j as int, k@));
        let mut id: String = k.to_owned();
        if codes[j] != codes[i] {
            id.append("_");
            id.append(decimal_text(codes[i] as u128).as_str());
        }
        proof {
            lemma_first_owns(codes@, all, j as int, codes@[i as int], k@);
        }
        out.push(id);
        i += 1;
    }
    proof {
        assert(texts(out@) =~= ids_of(codes@, all));
        lemma_first_keeps_slug(codes@, all);
        if plain(all) {
            lemma_ids_differ(codes@, all);
        }
        assert forall|i: int|
            0 <= i < out@.len() && (forall|j: int|
                0 <= j < i ==> (#[trigger] kslugs@[j])@ != kslugs@[i]@) implies (
        #[trigger] out@[i])@ == kslugs@[i]@ by {
            assert forall|j: int| 0 <= j < i implies #[trigger] all[j] != all[i] by {
                assert(all[j] == kslugs@[j]@);
            }
            assert(texts(out@)[i] == out@[i]@);
        }
        assert forall|i: int, j: int|
            plain(all) && 0 <= i < out@.len() && 0 <= j < out@.len() && codes@[i]
                != codes@[j] implies (#[trigger] out@[i])@ != (#[trigger] out@[j])@ by {
            assert(texts(out@)[i] == out@[i]@ && texts(out@)[j] == out@[j]@);
        }
    }
    out
}

/// Whoever comes first with a slug owns it, and nobody else.
pub proof fn lemma_first_owns(
    codes: Seq<u16>,
    kslugs: Seq<Seq<char>>,
    j: int,
    code: u16,
    s: Seq<char>,
)
    requires
        first_with(kslugs, j, s),
    ensures
        owns_slug(codes, kslugs, code, s) == (codes[j] == code),
{
    if owns_slug(codes, kslugs, code, s) {
        let k = choose|k: int| #[trigger] first_with(kslugs, k, s) && codes[k] == code;
        if k < j {
            assert(kslugs[k] != s);
        }
        if j < k {
            assert(kslugs[j] != s);
        }
    }
}

/// A slug that occurs has a first position.
pub proof fn lemma_first_with_exists(kslugs: Seq<Seq<char>>, i: int, s: Seq<char>) -> (j: int)
    requires
        0 <= i < kslugs.len(),
        kslugs[i] == s,
    ensures
        first_with(kslugs, j, s),
        j <= i,
    decreases i,
{
    if exists|k: int| 0 <= k < i && #[trigger] kslugs[k] == s {
        let k = choose|k: int| 0 <= k < i && #[trigger] kslugs[k] == s;
        lemma_first_with_exists(kslugs, k, s)
    } else {
        i
    }
}

/// The first key with a slug goes by that slug.
proof fn lemma_first_keeps_slug(codes: Seq<u16>, kslugs: Seq<Seq<char>>)
    requires
        codes.len() == kslugs.len(),
    ensures
        forall|i: int|
            0 <= i < kslugs.len() && (forall|j: int|
                0 <= j < i ==> #[trigger] kslugs[j] != kslugs[i]) ==> #[trigger] ids_of(
                codes,
                kslugs,
            )[i] == kslugs[i],
{
    assert forall|i: int|
        0 <= i < kslugs.len() && (forall|j: int|
            0 <= j < i ==> #[trigger] kslugs[j] != kslugs[i]) implies #[trigger] ids_of(
        codes,
        kslugs,
    )[i] == kslugs[i] by {
        assert(first_with(kslugs, i, kslugs[i]));
    }
}

/// Different keys have different ids.
pub proof fn lemma_ids_differ(codes: Seq<u16>, kslugs: Seq<Seq<char>>)
    requires
        codes.len() == kslugs.len(),
        plain(kslugs),
    ensures
        forall|i: int, j: int|
            #![trigger ids_of(codes, kslugs)[i], ids_of(codes, kslugs)[j]]
            0 <= i < kslugs.len() && 0 <= j < kslugs.len() && ids_of(codes, kslugs)[i] == ids_of(
                codes,
                kslugs,
            )[j] ==> codes[i] == codes[j] && kslugs[i] == kslugs[j],
{
    let ids = ids_of(codes, kslugs);
    assert forall|i: int, j: int|
        #![trigger ids_of(codes, kslugs)[i], ids_of(codes, kslugs)[j]]
        0 <= i < kslugs.len() && 0 <= j < kslugs.len() && ids[i] == ids[j] implies codes[i]
        == codes[j] && kslugs[i] == kslugs[j] by {
        reveal_strlit("_");
        let a = kslugs[i];
        let b = kslugs[j];
        let f = lemma_first_with_exists(kslugs, i, a);
        let g = lemma_first_with_exists(kslugs, j, b);
        lemma_first_owns(codes, kslugs, f, codes[i], a);
        lemma_first_owns(codes, kslugs, g, codes[j], b);
        let long_a = a + "_"@ + decimal(codes[i] as nat);
        let long_b = b + "_"@ + decimal(codes[j] as nat);
        assert(long_a[a.len() as int] == '_');
        assert(long_b[b.len() as int] == '_');
        assert(!a.contains('_') && !b.contains('_'));
        if codes[f] == codes[i] && codes[g] == codes[j] {
            lemma_first_owns(codes, kslugs, f, codes[j], a);
        } else if codes[f] == codes[i] {
            assert(a[b.len() as int] == '_');
        } else if codes[g] == codes[j] {
            assert(b[a.len() as int] == '_');
        } else {
            if a.len() < b.len() {
                assert(long_b[a.len() as int] == b[a.len() as int]);
            }
            if b.len() < a.len() {
                assert(long_a[b.len() as int] == a[b.len() as int]);
            }
            assert(long_a.take(a.len() as int) =~= a);
            assert(long_b.take(b.len() as int) =~= b);
            assert(long_a.skip(a.len() as int + 1) =~= decimal(codes[i] as nat));
            assert(long_b.skip(b.len() as int + 1) =~= decimal(codes[j] as nat));
            lemma_decimal_injective(codes[i] as nat, codes[j] as nat);
        }
    }
}

/// Announced slugs hold no underscore.
pub proof fn lemma_announced_plain(codes: Seq<u16>)
    ensures
        plain(announced_slugs(codes)),
{
    let kslugs = announced_slugs(codes);
    assert forall|i: int| 0 <= i < kslugs.len() implies !(#[trigger] kslugs[i]).contains('_') by {
        lemma_slug_well_formed(key_stem(key_label(codes[i], key_code_text(codes[i]))));
    }
}

/// The discovery payload of a device, given the slugs of its keys.
pub fn discovery_payload_for(
    record: &DeviceRecord,
    kslugs: &Vec<String>,
    mqtt: &MqttConfig,
    hass: &HassConfig,
) -> (out: Vec<u8>)
    requires
        kslugs@.len() == record@.observed_keys.len(),
    ensures
        out@ == json_text(discovery_tree(record@, texts(kslugs@), mqtt@, hass@)),
        json_document(out@) == Some(discovery_tree(record@, texts(kslugs@), mqtt@, hass@)),
        plain(texts(kslugs@)) && record@.observed_keys.no_duplicates() ==> device_components(
            record@,
            texts(kslugs@),
            mqtt@.topic_prefix,
        ).dom().len() == 1 + 2 * kslugs@.len(),
{
    let prefix = mqtt.topic_prefix.as_str();
    let identifier = device_identifier(prefix, record.slug.as_str());
    let enabled_topic = device_enabled_topic(prefix, record.slug.as_str());
    let topic = action_topic(prefix, record.slug.as_str());

    let mut parts = object_new();
    object_insert(
        &mut parts,
        "enabled".to_owned(),
        switch_component(identifier.as_str(), enabled_topic.as_str()),
    );
    let ids = trigger_ids(&record.observed_keys, kslugs);
    let ghost all = texts(kslugs@);
    let ghost all_ids = ids_of(record@.observed_keys, all);
    let mut i: usize = 0;
    while i < kslugs.len()
        invariant
            all == texts(kslugs@),
            all_ids == texts(ids@),
            ids@.len() == kslugs@.len(),
            i <= kslugs@.len(),
            members(parts) == components(
                all_ids.take(i as int),
                all.take(i as int),
                identifier@,
                enabled_topic@,
                topic@,
            ),
        decreases kslugs@.len() - i,
    {
        let id = ids[i].as_str();
        let k = kslugs[i].as_str();
        object_insert(
            &mut parts,
            event_payload(id, Action::Press),
            trigger_component(id, k, Action::Press, topic.as_str()),
        );
        object_insert(
            &mut parts,
            event_payload(id, Action::Release),
            trigger_component(id, k, Action::Release, topic.as_str()),
        );
        i += 1;
        proof {
            assert(all.take(i as int).drop_last() =~= all.take(i - 1));
            assert(all_ids.take(i as int).drop_last() =~= all_ids.take(i - 1));
            assert(all.take(i as int).last() == k@);
            assert(all_ids.take(i as int).last() == id@);
        }
    }
    assert(all.take(i as int) =~= all);
    assert(all_ids.take(i as int) =~= all_ids);

    let label = record.display_name();
    let mut name: String = hass.name.clone();
    name.append(" - ");
    name.append(label.as_str());
    let mut model: String = "Input Device (".to_owned();
    model.append(label.as_str());
    model.append(")");

    let ids = vec![json_string(identifier)];
    assert(trees(ids@) =~= seq![leaf(identifier@)]);
    let mut dev = object_new();
    object_insert(&mut dev, "ids".to_owned(), json_list(ids));
    put_text(&mut dev, "name", name);
    put_text(&mut dev, "mf", MANUFACTURER.to_owned());
    put_text(&mut dev, "mdl", model);
    put_text(&mut dev, "sw", VERSION.to_owned());
    let mut origin = object_new();
    put_text(&mut origin, "name", ORIGIN_NAME.to_owned());
    put_text(&mut origin, "sw", VERSION.to_owned());
    put_text(&mut origin, "url", ORIGIN_URL.to_owned());
    let mut m = object_new();
    object_insert(&mut m, "dev".to_owned(), json_object(dev));
    object_insert(&mut m, "o".to_owned(), json_object(origin));
    put_text(&mut m, "availability_topic", availability_topic(prefix));
    put_uint(&mut m, "qos", 1);
    object_insert(&mut m, "cmps".to_owned(), json_object(parts));
    let v = json_object(m);
    proof {
        assert(tree(v) == discovery_tree(record@, texts(kslugs@), mqtt@, hass@));
        lemma_discovery_simple(record@, texts(kslugs@), mqtt@, hass@);
        if plain(texts(kslugs@)) && record@.observed_keys.no_duplicates() {
            lemma_trigger_pair_per_key(record@, texts(kslugs@), mqtt@, hass@);
        }
    }
    json_bytes(&v)
}

/// An object whose members are texts or booleans is simple.
proof fn lemma_texts_simple(t: JsonTree, depth: nat)
    requires
        depth >= 1,
        t matches JsonTree::Object(m) && forall|k: Seq<char>| #[trigger]
            m.contains_key(k) ==> m[k] is Text || m[k] is Bool,
    ensures
        t.simple(depth),
{
    reveal_with_fuel(JsonTree::simple, 2);
}

proof fn lemma_components_simple(
    ids: Seq<Seq<char>>,
    kslugs: Seq<Seq<char>>,
    identifier: Seq<char>,
    enabled_topic: Seq<char>,
    topic: Seq<char>,
    depth: nat,
)
    requires
        depth >= 1,
    ensures
        forall|k: Seq<char>| #[trigger]
            components(ids, kslugs, identifier, enabled_topic, topic).contains_key(k)
                ==> components(ids, kslugs, identifier, enabled_topic, topic)[k].simple(depth),
    decreases ids.len(),
{
    let m = components(ids, kslugs, identifier, enabled_topic, topic);
    if ids.len() > 0 {
        let (less_ids, less) = (ids.drop_last(), kslugs.drop_last());
        lemma_components_simple(less_ids, less, identifier, enabled_topic, topic, depth);
        let id = ids.last();
        let k = kslugs.last();
        lemma_texts_simple(trigger_tree(id, k, Action::Press, topic), depth);
        lemma_texts_simple(trigger_tree(id, k, Action::Release, topic), depth);
        let before = components(less_ids, less, identifier, enabled_topic, topic);
        assert forall|key: Seq<char>| #[trigger] m.contains_key(key) implies m[key].simple(
            depth,
        ) by {
            if key != event_text(id, Action::Press) && key != event_text(id, Action::Release) {
                assert(before.contains_key(key));
            }
        }
    } else {
        lemma_texts_simple(switch_tree(identifier, enabled_topic), depth);
    }
}

proof fn lemma_discovery_simple(
    r: RecordView,
    kslugs: Seq<Seq<char>>,
    mqtt: MqttView,
    hass: HassView,
)
    ensures
        discovery_tree(r, kslugs, mqtt, hass).simple(MAX_DEPTH as nat),
{
    reveal_with_fuel(JsonTree::simple, 4);
    let prefix = mqtt.topic_prefix;
    lemma_components_simple(
        ids_of(r.observed_keys, kslugs),
        kslugs,
        identifier_text(prefix, r.slug),
        enabled_topic_text(prefix, r.slug),
        action_topic_text(prefix, r.slug),
        (MAX_DEPTH - 2) as nat,
    );
}

/// An event text names one key and one action.
pub proof fn lemma_event_text_injective(a: Seq<char>, x: Action, b: Seq<char>, y: Action)
    requires
        event_text(a, x) == event_text(b, y),
    ensures
        a == b,
        x == y,
{
    reveal_strlit("_");
    reveal_strlit("press");
    reveal_strlit("release");
    let s = event_text(a, x);
    let t = event_text(b, y);
    assert(s.last() == x.word().last());
    assert(t.last() == y.word().last());
    assert(s.take(a.len() as int) =~= a);
    assert(t.take(b.len() as int) =~= b);
}

/// The switch is among the components of a device.
pub proof fn lemma_switch_component(
    ids: Seq<Seq<char>>,
    kslugs: Seq<Seq<char>>,
    identifier: Seq<char>,
    enabled_topic: Seq<char>,
    topic: Seq<char>,
)
    ensures
        ({
            let m = components(ids, kslugs, identifier, enabled_topic, topic);
            m.contains_key("enabled"@) && m["enabled"@] == switch_tree(identifier, enabled_topic)
        }),
    decreases ids.len(),
{
    if ids.len() > 0 {
        lemma_switch_component(
            ids.drop_last(),
            kslugs.drop_last(),
            identifier,
            enabled_topic,
            topic,
        );
        lemma_event_is_no_switch(ids.last(), Action::Press);
        lemma_event_is_no_switch(ids.last(), Action::Release);
    }
}

/// No trigger has the name of the switch.
proof fn lemma_event_is_no_switch(id: Seq<char>, a: Action)
    ensures
        event_text(id, a) != "enabled"@,
{
    reveal_strlit("enabled");
    reveal_strlit("press");
    reveal_strlit("release");
    assert(event_text(id, a).last() == a.word().last());
    assert("enabled"@.last() == 'd');
    match a {
        Action::Press => {},
        Action::Release => {},
    }
}

/// The components of a device are exactly the switch and, for each of its keys,
/// one trigger per action.
pub proof fn lemma_components(
    ids: Seq<Seq<char>>,
    kslugs: Seq<Seq<char>>,
    identifier: Seq<char>,
    enabled_topic: Seq<char>,
    topic: Seq<char>,
)
    requires
        ids.len() == kslugs.len(),
        forall|i: int, j: int|
            #![trigger ids[i], ids[j]]
            0 <= i < ids.len() && 0 <= j < ids.len() && ids[i] == ids[j] ==> kslugs[i]
                == kslugs[j],
    ensures
        ({
            let m = components(ids, kslugs, identifier, enabled_topic, topic);
            &&& m.contains_key("enabled"@)
            &&& m["enabled"@] == switch_tree(identifier, enabled_topic)
            &&& forall|i: int, a: Action|
                #![trigger event_text(ids[i], a)]
                0 <= i < ids.len() ==> m.contains_key(event_text(ids[i], a)) && m[event_text(
                    ids[i],
                    a,
                )] == trigger_tree(ids[i], kslugs[i], a, topic)
            &&& forall|k: Seq<char>| #[trigger]
                m.contains_key(k) ==> k == "enabled"@ || exists|i: int, a: Action|
                    0 <= i < ids.len() && k == #[trigger] event_text(ids[i], a)
        }),
    decreases ids.len(),
{
    let m = components(ids, kslugs, identifier, enabled_topic, topic);
    lemma_switch_component(ids, kslugs, identifier, enabled_topic, topic);
    if ids.len() > 0 {
        let rest = ids.drop_last();
        let n = ids.len() - 1;
        let id = ids.last();
        let old_m = components(rest, kslugs.drop_last(), identifier, enabled_topic, topic);
        assert forall|i: int, j: int|
            #![trigger rest[i], rest[j]]
            0 <= i < rest.len() && 0 <= j < rest.len() && rest[i]
                == rest[j] implies kslugs.drop_last()[i] == kslugs.drop_last()[j] by {
            assert(ids[i] == ids[j]);
        }
        lemma_components(rest, kslugs.drop_last(), identifier, enabled_topic, topic);
        let press = event_text(id, Action::Press);
        let release = event_text(id, Action::Release);
        assert forall|i: int, a: Action|
            #![trigger event_text(ids[i], a)]
            0 <= i < ids.len() implies m.contains_key(event_text(ids[i], a)) && m[event_text(
            ids[i],
            a,
        )] == trigger_tree(ids[i], kslugs[i], a, topic) by {
            let e = event_text(ids[i], a);
            if i < rest.len() {
                assert(rest[i] == ids[i]);
                assert(kslugs.drop_last()[i] == kslugs[i]);
                assert(old_m.contains_key(event_text(rest[i], a)));
            }
            if e == press {
                lemma_event_text_injective(ids[i], a, id, Action::Press);
                assert(ids[i] == ids[n]);
            }
            if e == release {
                lemma_event_text_injective(ids[i], a, id, Action::Release);
                assert(ids[i] == ids[n]);
            }
            match a {
                Action::Press => {
                    if press == release {
                        lemma_event_text_injective(id, Action::Press, id, Action::Release);
                    }
                },
                Action::Release => {},
            }
        }
        assert forall|key: Seq<char>| #[trigger] m.contains_key(key) implies key == "enabled"@
            || exists|i: int, a: Action|
            0 <= i < ids.len() && key == #[trigger] event_text(ids[i], a) by {
            if key == press {
                assert(key == event_text(ids[n], Action::Press));
            } else if key == release {
                assert(key == event_text(ids[n], Action::Release));
            } else if key != "enabled"@ {
                assert(old_m.contains_key(key));
                let (i, a) = choose|i: int, a: Action|
                    0 <= i < rest.len() && key == #[trigger] event_text(rest[i], a);
                assert(key == event_text(ids[i], a));
            }
        }
    }
}

/// Every key has a press and a release trigger of its own: the bundle of a device
/// holds the switch and two triggers per key, and no two keys or actions share
/// one.
pub proof fn lemma_trigger_pair_per_key(
    r: RecordView,
    kslugs: Seq<Seq<char>>,
    mqtt: MqttView,
    hass: HassView,
)
    requires
        r.observed_keys.len() == kslugs.len(),
        plain(kslugs),
        forall|i: int, j: int|
            #![trigger kslugs[i], kslugs[j]]
            0 <= i < kslugs.len() && 0 <= j < kslugs.len() && r.observed_keys[i]
                == r.observed_keys[j] ==> kslugs[i] == kslugs[j],
    ensures
        ({
            let codes = r.observed_keys;
            let ids = ids_of(codes, kslugs);
            let topic = action_topic_text(mqtt.topic_prefix, r.slug);
            let parts = device_components(r, kslugs, mqtt.topic_prefix);
            &&& discovery_tree(r, kslugs, mqtt, hass).member("cmps"@) == Some(
                JsonTree::Object(parts),
            )
            &&& parts.dom().finite()
            &&& parts.dom().len() == 1 + 2 * codes.to_set().len()
            &&& codes.no_duplicates() ==> parts.dom().len() == 1 + 2 * codes.len()
            &&& forall|i: int, a: Action|
                #![trigger event_text(ids[i], a)]
                0 <= i < codes.len() ==> parts.contains_key(event_text(ids[i], a))
                    && parts[event_text(ids[i], a)] == trigger_tree(ids[i], kslugs[i], a, topic)
            &&& forall|i: int, a: Action, j: int, b: Action|
                #![trigger event_text(ids[i], a), event_text(ids[j], b)]
                0 <= i < codes.len() && 0 <= j < codes.len() && event_text(ids[i], a)
                    == event_text(ids[j], b) ==> codes[i] == codes[j] && a == b
        }),
{
    let codes = r.observed_keys;
    let ids = ids_of(codes, kslugs);
    let prefix = mqtt.topic_prefix;
    let parts = device_components(r, kslugs, prefix);
    lemma_ids_differ(codes, kslugs);
    lemma_components(
        ids,
        kslugs,
        identifier_text(prefix, r.slug),
        enabled_topic_text(prefix, r.slug),
        action_topic_text(prefix, r.slug),
    );
    assert forall|i: int, a: Action, j: int, b: Action|
        #![trigger event_text(ids[i], a), event_text(ids[j], b)]
        0 <= i < codes.len() && 0 <= j < codes.len() && event_text(ids[i], a) == event_text(
            ids[j],
            b,
        ) implies codes[i] == codes[j] && a == b by {
        lemma_event_text_injective(ids[i], a, ids[j], b);
    }
    let all = codes.to_set();
    vstd::seq_lib::seq_to_set_is_finite(codes);
    let slug_of = |c: u16| kslugs[codes.index_of(c)];
    let press = |c: u16| event_text(trigger_id(codes, kslugs, c, slug_of(c)), Action::Press);
    let release = |c: u16| event_text(trigger_id(codes, kslugs, c, slug_of(c)), Action::Release);
    assert forall|i: int| 0 <= i < codes.len() implies slug_of(#[trigger] codes[i])
        == kslugs[i] by {
        let k = codes.index_of(codes[i]);
        assert(codes[k] == codes[i]);
        assert(kslugs[k] == kslugs[i]);
    }
    assert forall|i: int| 0 <= i < codes.len() implies press(#[trigger] codes[i]) == event_text(
        ids[i],
        Action::Press,
    ) && release(codes[i]) == event_text(ids[i], Action::Release) by {
        assert(slug_of(codes[i]) == kslugs[i]);
    }
    assert forall|c: u16, d: u16| all.contains(c) && all.contains(d) implies (#[trigger] press(c)
        == #[trigger] press(d) ==> c == d) && (release(c) == release(d) ==> c == d) && press(c)
        != release(d) by {
        let i = codes.index_of(c);
        let j = codes.index_of(d);
        assert(codes[i] == c && codes[j] == d);
    }
    assert forall|c: u16, d: u16| all.contains(c) && all.contains(d) && #[trigger] release(c)
        == #[trigger] release(d) implies c == d by {
        assert(press(c) == press(c) && press(d) == press(d));
    }
    let pressed = all.map(press);
    let released = all.map(release);
    vstd::set_lib::lemma_map_size(all, pressed, press);
    vstd::set_lib::lemma_map_size(all, released, release);
    let switch = set!["enabled"@];
    assert(pressed.disjoint(released)) by {
        assert forall|e: Seq<char>| pressed.contains(e) implies !released.contains(e) by {
            let c = choose|c: u16| all.contains(c) && press(c) == e;
            if released.contains(e) {
                let d = choose|d: u16| all.contains(d) && release(d) == e;
                assert(press(d) == press(d));
                assert(press(c) != release(d));
            }
        }
    }
    let triggers = pressed + released;
    vstd::set_lib::lemma_set_disjoint_lens(pressed, released);
    assert(switch.disjoint(triggers)) by {
        assert forall|e: Seq<char>| switch.contains(e) implies !triggers.contains(e) by {
            assert forall|c: u16| all.contains(c) implies #[trigger] press(c) != e && release(c)
                != e by {
                lemma_event_is_no_switch(
                    trigger_id(codes, kslugs, c, slug_of(c)),
                    Action::Press,
                );
                lemma_event_is_no_switch(
                    trigger_id(codes, kslugs, c, slug_of(c)),
                    Action::Release,
                );
            }
        }
    }
    vstd::set_lib::lemma_set_disjoint_lens(switch, triggers);
    assert(parts.dom() =~= switch + triggers) by {
        assert forall|e: Seq<char>| parts.dom().contains(e) implies (switch + triggers).contains(
            e,
        ) by {
            assert(parts.contains_key(e));
            if e != "enabled"@ {
                let (i, a) = choose|i: int, a: Action|
                    0 <= i < ids.len() && e == #[trigger] event_text(ids[i], a);
                assert(all.contains(codes[i]));
                match a {
                    Action::Press => {
                        assert(press(codes[i]) == e);
                    },
                    Action::Release => {
                        assert(release(codes[i]) == e);
                    },
                }
            }
        }
        assert forall|e: Seq<char>| (switch + triggers).contains(e) implies parts.dom().contains(
            e,
        ) by {
            if pressed.contains(e) {
                let c = choose|c: u16| all.contains(c) && press(c) == e;
                let i = codes.index_of(c);
                assert(e == event_text(ids[i], Action::Press));
            } else if released.contains(e) {
                let c = choose|c: u16| all.contains(c) && release(c) == e;
                let i = codes.index_of(c);
                assert(e == event_text(ids[i], Action::Release));
            }
        }
    }
    if codes.no_duplicates() {
        codes.unique_seq_to_set();
    }
}

/// Among keys in ascending order, the one with the least code owns a slug.
proof fn lemma_least_owns(codes: Seq<u16>, code: u16)
    requires
        sorted_by(codes, code_leq()),
        codes.contains(code),
    ensures
        owns_slug(codes, announced_slugs(codes), code, announced_slug(code)) <==> forall|d: u16|
            #[trigger] codes.contains(d) && announced_slug(d) == announced_slug(code) ==> code
                <= d,
{
    let kslugs = announced_slugs(codes);
    let s = announced_slug(code);
    let leq = code_leq();
    let i = codes.index_of(code);
    assert(codes[i] == code && kslugs[i] == s);
    let j = lemma_first_with_exists(kslugs, i, s);
    lemma_first_owns(codes, kslugs, j, code, s);
    assert(codes.contains(codes[j]) && announced_slug(codes[j]) == s);
    if j < i {
        assert(leq(codes[j], codes[i]));
    }
    if codes[j] == code {
        assert forall|d: u16| #[trigger] codes.contains(d) && announced_slug(d) == s implies code
            <= d by {
            let k = codes.index_of(d);
            assert(codes[k] == d && kslugs[k] == s);
            if j < k {
                assert(leq(codes[j], codes[k]));
            }
        }
    }
}

/// The keys once `code` is among them.
proof fn lemma_with_code(codes: Seq<u16>, code: u16)
    ensures
        sorted_by(sorted_codes(codes.push(code)), code_leq()),
        forall|x: u16| #[trigger]
            sorted_codes(codes.push(code)).contains(x) <==> codes.contains(x) || x == code,
{
    let longer = codes.push(code);
    lemma_sorted_codes_ensures(longer);
    assert forall|x: u16| #[trigger] sorted_codes(longer).contains(x) <==> codes.contains(x) || x
        == code by {
        if codes.contains(x) {
            assert(longer[codes.index_of(x)] == x);
        }
        assert(longer[codes.len() as int] == code);
        if longer.contains(x) {
            let k = longer.index_of(x);
            assert(longer[k] == x);
            if k < codes.len() {
                assert(codes[k] == x);
            }
        }
    }
}

/// A further key takes no id away: whatever id a key went by still belongs to a
/// key of the same slug.
proof fn lemma_ids_stay(codes: Seq<u16>, code: u16, c: u16) -> (d: u16)
    requires
        sorted_by(codes, code_leq()),
        !codes.contains(code),
        codes.contains(c),
    ensures
        sorted_codes(codes.push(code)).contains(d),
        announced_slug(d) == announced_slug(c),
        announced_id(sorted_codes(codes.push(code)), d) == announced_id(codes, c),
{
    let more = sorted_codes(codes.push(code));
    lemma_with_code(codes, code);
    let s = announced_slug(c);
    lemma_least_owns(codes, c);
    assert(more.contains(c) && more.contains(code));
    lemma_least_owns(more, c);
    lemma_least_owns(more, code);
    let owned = owns_slug(codes, announced_slugs(codes), c, s);
    if owned && announced_slug(code) == s && code < c {
        assert forall|d: u16| #[trigger] more.contains(d) && announced_slug(d) == s implies code
            <= d by {
            if d != code {
                assert(codes.contains(d));
            }
        }
        code
    } else {
        if owned {
            assert forall|d: u16| #[trigger] more.contains(d) && announced_slug(d) == s implies c
                <= d by {
                if d != code {
                    assert(codes.contains(d));
                }
            }
        } else {
            let d = choose|d: u16| #[trigger]
                codes.contains(d) && announced_slug(d) == s && !(c <= d);
            assert(more.contains(d));
        }
        c
    }
}

/// A key observed for the first time brings exactly two more components. Where
/// the keys known before are in ascending order, all others stay as they were.
pub proof fn lemma_new_key_adds_pair(r: RecordView, code: u16, prefix: Seq<char>)
    requires
        !r.observed_keys.contains(code),
    ensures
        ({
            let more = r.with_key(code);
            let before = device_components(r, announced_slugs(r.observed_keys), prefix);
            let after = device_components(more, announced_slugs(more.observed_keys), prefix);
            &&& after.dom().len() == before.dom().len() + 2
            &&& sorted_by(r.observed_keys, code_leq()) ==> before.submap_of(after)
        }),
{
    let codes = r.observed_keys;
    let more = r.with_key(code);
    let before = device_components(r, announced_slugs(codes), prefix);
    let after = device_components(more, announced_slugs(more.observed_keys), prefix);
    let mqtt = MqttView { topic_prefix: prefix, ..arbitrary() };
    let hass: HassView = arbitrary();
    lemma_announced_plain(codes);
    lemma_announced_plain(more.observed_keys);
    lemma_trigger_pair_per_key(r, announced_slugs(codes), mqtt, hass);
    lemma_trigger_pair_per_key(more, announced_slugs(more.observed_keys), mqtt, hass);
    lemma_with_code(codes, code);
    vstd::seq_lib::seq_to_set_is_finite(codes);
    assert(more.observed_keys.to_set() =~= codes.to_set().insert(code)) by {
        assert forall|x: u16| more.observed_keys.to_set().contains(x)
            <==> #[trigger] codes.to_set().insert(code).contains(x) by {
            assert(more.observed_keys.contains(x) == (codes.contains(x) || x == code));
        }
    }
    if sorted_by(codes, code_leq()) {
        lemma_bundle_grows(r, code, prefix);
    }
}

proof fn lemma_bundle_grows(r: RecordView, code: u16, prefix: Seq<char>)
    requires
        !r.observed_keys.contains(code),
        sorted_by(r.observed_keys, code_leq()),
    ensures
        device_components(r, announced_slugs(r.observed_keys), prefix).submap_of(
            device_components(
                r.with_key(code),
                announced_slugs(r.with_key(code).observed_keys),
                prefix,
            ),
        ),
{
    let codes = r.observed_keys;
    let more = r.with_key(code).observed_keys;
    let kslugs = announced_slugs(codes);
    let more_kslugs = announced_slugs(more);
    let ids = ids_of(codes, kslugs);
    let more_ids = ids_of(more, more_kslugs);
    let before = device_components(r, kslugs, prefix);
    let after = device_components(r.with_key(code), more_kslugs, prefix);
    lemma_announced_plain(codes);
    lemma_announced_plain(more);
    lemma_ids_differ(codes, kslugs);
    lemma_ids_differ(more, more_kslugs);
    let identifier = identifier_text(prefix, r.slug);
    let enabled_topic = enabled_topic_text(prefix, r.slug);
    let topic = action_topic_text(prefix, r.slug);
    lemma_components(ids, kslugs, identifier, enabled_topic, topic);
    lemma_components(more_ids, more_kslugs, identifier, enabled_topic, topic);
    assert forall|e: Seq<char>| #[trigger] before.contains_key(e) implies after.contains_key(e)
        && before[e] == after[e] by {
        if e != "enabled"@ {
            let (i, a) = choose|i: int, a: Action|
                0 <= i < ids.len() && e == #[trigger] event_text(ids[i], a);
            assert(codes.contains(codes[i]));
            let d = lemma_ids_stay(codes, code, codes[i]);
            let n = more.index_of(d);
            assert(more[n] == d);
            assert(more_ids[n] == ids[i] && more_kslugs[n] == kslugs[i]);
            assert(after.contains_key(event_text(more_ids[n], a)));
        }
    }
}

/// The description of a device says nothing of its keys or its switch.
pub proof fn lemma_info_identifies_only(r: RecordView, keys: Seq<u16>, on: bool)
    ensures
        info_tree(RecordView { observed_keys: keys, enabled: on, ..r }) == info_tree(r),
        info_tree(r).member("observed_keys"@) is None,
        info_tree(r).member("unique_id"@) is Some <==> r.unique_id is Some,
{
    reveal_strlit("slug");
    reveal_strlit("name");
    reveal_strlit("bus");
    reveal_strlit("vendor");
    reveal_strlit("product");
    reveal_strlit("version");
    reveal_strlit("unique_id");
    reveal_strlit("observed_keys");
    assert("slug"@.len() == 4 && "name"@.len() == 4 && "bus"@.len() == 3);
    assert("vendor"@.len() == 6 && "product"@.len() == 7 && "version"@.len() == 7);
    assert("unique_id"@.len() == 9 && "observed_keys"@.len() == 13);
}

} // verus!
