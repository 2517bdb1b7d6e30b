//! Listing and managing devices.

use crate::behaviour::bundle::says;
use crate::behaviour::commands::says_word;
use crate::behaviour::topics::{enabled_topic_of, info_topic_of, one_level};
use crate::behaviour::words::{fits, hex_number_of, lemma_hex};
use crate::cli::{
    cells, device_rows, disable_devices, enable_devices, list_devices, order, orders,
    remove_devices, row, table_text, Order, Verb,
};
use crate::client::{
    gathered, messages, next_wait_millis, snapshot, snapshot_from, snapshots, switch_of, Client,
    DeviceSnapshot, SnapshotView,
};
use crate::config::MqttConfig;
use crate::json::{json_document, tree, JsonTree};
use crate::mqtt::{ConnectPlan, IncomingPublish, Publish, PublishView};
use crate::text::{decimal, hex, text_lt, texts};
use vstd::prelude::*;
use vstd::string::*;
use vstd::utf8::{decode_utf8, encode_utf8, valid_utf8};

verus! {

/// A client speaks for the prefix of its settings, under an id of its own, and
/// leaves its last will where nobody reads it.
pub proof fn law_client_connect(mqtt: MqttConfig, pid: u32, out: (Client, ConnectPlan))
    requires
        call_ensures(Client::connect, (&mqtt, pid), out),
    ensures
        out.0@ == mqtt.topic_prefix@,
        out.1.client_id@ == mqtt.client_id_prefix@ + "-cli-"@ + decimal(pid as nat),
        out.1.host@ == mqtt.host@,
        out.1.port == mqtt.port,
        out.1.keepalive_secs >= 5,
        out.1.keepalive_secs >= mqtt.keepalive_secs,
        out.1.keepalive_secs == 5 || out.1.keepalive_secs == mqtt.keepalive_secs,
        out.1.clean_session,
        out.1.capacity == 100,
        out.1.last_will.topic@ == mqtt.topic_prefix@ + "/status"@ + "/cli-lwt"@,
        out.1.last_will.payload@ == encode_utf8("offline"@),
        out.1.last_will.retain,
        match (mqtt.username, mqtt.password) {
            (Some(u), Some(p)) if u@.len() > 0 => out.1.credentials matches Some((v, q)) && v@
                == u@ && q@ == p@,
            _ => out.1.credentials is None,
        },
{
    assert(out.1.last_will@.topic == mqtt.topic_prefix@ + "/status"@ + "/cli-lwt"@);
    assert(crate::mqtt::opt_texts(out.1.credentials) == crate::mqtt::credentials(mqtt@));
}

/// A listing subscribes to the descriptions and the switches of all devices.
pub proof fn law_subscriptions(client: Client, out: Vec<String>)
    requires
        call_ensures(Client::subscriptions, (&client,), out),
    ensures
        out@.len() == 2,
        out@[0]@ == client@ + "/_devices/"@ + "+"@,
        out@[1]@ == client@ + "/_devices/"@ + "+"@ + "/enabled"@,
{
    assert(texts(out@).len() == out@.len());
    assert(texts(out@)[0] == out@[0]@ && texts(out@)[1] == out@[1]@);
}

/// A client enables, disables and removes a device by a retained message on its
/// enabled topic.
pub proof fn law_client_messages(
    client: Client,
    s: &str,
    enable: Publish,
    disable: Publish,
    remove: Publish,
)
    requires
        call_ensures(Client::enable_device, (&client, s), enable),
        call_ensures(Client::disable_device, (&client, s), disable),
        call_ensures(Client::remove_device, (&client, s), remove),
    ensures
        ({
            let topic = client@ + "/_devices/"@ + s@ + "/enabled"@;
            &&& enable.topic@ == topic && enable.retain && enable.payload@ == encode_utf8("on"@)
            &&& disable.topic@ == topic && disable.retain && disable.payload@ == encode_utf8("off"@)
            &&& remove.topic@ == topic && remove.retain && remove.payload@.len() == 0
        }),
{
    assert(enable@.topic == disable@.topic && disable@.topic == remove@.topic);
}

/// A listing waits half a second for the next message, and never beyond five
/// seconds in all.
pub proof fn law_next_wait(elapsed: u128, out: Option<u64>)
    requires
        call_ensures(next_wait_millis, (elapsed,), out),
    ensures
        out is None <==> elapsed >= 5000,
        out matches Some(w) ==> w > 0 && w <= 500 && elapsed + w <= 5000 && (w == 500 || elapsed + w
            == 5000),
{
}

/// Whether the `i`th message is the last that tells something of the device `s`,
/// and describes it. Messages that can not be read tell nothing.
pub open spec fn described_at(
    prefix: Seq<char>,
    msgs: Seq<PublishView>,
    i: int,
    s: Seq<char>,
) -> bool {
    &&& 0 <= i < msgs.len()
    &&& msgs[i].topic == info_topic_of(prefix, s)
    &&& msgs[i].payload.len() > 0
    &&& json_document(msgs[i].payload) is Some
    &&& forall|k: int|
        i < k < msgs.len() && (#[trigger] msgs[k]).topic == info_topic_of(prefix, s)
            ==> msgs[k].payload.len() > 0 && json_document(msgs[k].payload) is None
}

/// Whether the `j`th message is the last on the enabled topic of the device `s`.
pub open spec fn switched_at(
    prefix: Seq<char>,
    msgs: Seq<PublishView>,
    j: int,
    s: Seq<char>,
) -> bool {
    &&& 0 <= j < msgs.len()
    &&& msgs[j].topic == enabled_topic_of(prefix, s)
    &&& forall|k: int|
        j < k < msgs.len() ==> (#[trigger] msgs[k]).topic != enabled_topic_of(prefix, s)
}

/// What a message on the enabled topic says of the switch.
pub open spec fn says_switch(payload: Seq<u8>, on: bool) -> bool {
    valid_utf8(payload) && says_word(
        decode_utf8(payload),
        if on {
            "on"@
        } else {
            "off"@
        },
    )
}

proof fn lemma_levels(s: Seq<char>)
    ensures
        one_level(s) == crate::topics::is_segment(s),
{
    if one_level(s) && s.contains('/') {
        let k = s.index_of('/');
        assert(s[k] == '/');
    }
    if crate::topics::is_segment(s) {
        assert forall|i: int| 0 <= i < s.len() implies #[trigger] s[i] != '/' by {
            if s[i] == '/' {
                assert(s.contains('/'));
            }
        }
    }
}

/// What has been gathered of descriptions is what was described last.
proof fn lemma_infos(prefix: Seq<char>, msgs: Seq<PublishView>, s: Seq<char>) -> (i: int)
    ensures
        gathered(prefix, msgs).infos.contains_key(s) <==> one_level(s) && described_at(
            prefix,
            msgs,
            i,
            s,
        ),
        gathered(prefix, msgs).infos.contains_key(s) ==> Some(gathered(prefix, msgs).infos[s])
            == json_document(msgs[i].payload),
        !gathered(prefix, msgs).infos.contains_key(s) && one_level(s) ==> forall|k: int|
            !#[trigger] described_at(prefix, msgs, k, s),
    decreases msgs.len(),
{
    lemma_levels(s);
    if msgs.len() == 0 {
        0
    } else {
        let rest = msgs.drop_last();
        let last = msgs.last();
        let n = msgs.len() - 1;
        let i = lemma_infos(prefix, rest, s);
        crate::client::lemma_info_topic_round_trip(prefix, last.topic, s);
        let here = one_level(s) && last.topic == info_topic_of(prefix, s);
        let readable = last.payload.len() > 0 && json_document(last.payload) is Some;
        let silent = !here || (last.payload.len() > 0 && json_document(last.payload) is None);
        let before = gathered(prefix, rest).infos;
        let now = gathered(prefix, msgs).infos;
        assert(here <==> crate::client::info_slug(prefix, last.topic) == Some(s));
        assert forall|k: int|
            0 <= k < n && one_level(s) implies #[trigger] described_at(prefix, msgs, k, s) == (
        described_at(prefix, rest, k, s) && silent) by {
            if described_at(prefix, msgs, k, s) {
                assert forall|m: int|
                    k < m < rest.len() && (#[trigger] rest[m]).topic == info_topic_of(
                        prefix,
                        s,
                    ) implies rest[m].payload.len() > 0 && json_document(rest[m].payload) is None by {
                    assert(msgs[m] == rest[m]);
                }
                assert(rest[k] == msgs[k]);
                assert(msgs[n] == last);
            }
            if described_at(prefix, rest, k, s) && silent {
                assert(rest[k] == msgs[k]);
                assert forall|m: int|
                    k < m < msgs.len() && (#[trigger] msgs[m]).topic == info_topic_of(
                        prefix,
                        s,
                    ) implies msgs[m].payload.len() > 0 && json_document(msgs[m].payload) is None by {
                    if m < n {
                        assert(msgs[m] == rest[m]);
                    }
                }
            }
        }
        if here && readable {
            assert(now.contains_key(s) && now[s] == json_document(last.payload)->0);
            assert(described_at(prefix, msgs, n, s));
            n
        } else {
            assert(silent || !now.contains_key(s));
            if silent {
                assert(now.contains_key(s) == before.contains_key(s));
                assert(before.contains_key(s) ==> now[s] == before[s]);
            }
            assert(!described_at(prefix, msgs, n, s) || !one_level(s));
            if before.contains_key(s) {
                assert(rest[i] == msgs[i]);
            }
            assert forall|k: int|
                !now.contains_key(s) && one_level(s) implies !#[trigger] described_at(
                prefix,
                msgs,
                k,
                s,
            ) by {
                if 0 <= k < n {
                    assert(described_at(prefix, msgs, k, s) == (described_at(prefix, rest, k, s)
                        && silent));
                }
            }
            i
        }
    }
}

/// What has been gathered of switches is what was said last.
proof fn lemma_switches(prefix: Seq<char>, msgs: Seq<PublishView>, s: Seq<char>) -> (j: int)
    requires
        one_level(s),
    ensures
        switch_of(gathered(prefix, msgs), s) == if switched_at(prefix, msgs, j, s) && says_switch(
            msgs[j].payload,
            true,
        ) {
            Some(true)
        } else if switched_at(prefix, msgs, j, s) && says_switch(msgs[j].payload, false) {
            Some(false)
        } else {
            None
        },
        !switched_at(prefix, msgs, j, s) ==> forall|k: int|
            0 <= k < msgs.len() ==> (#[trigger] msgs[k]).topic != enabled_topic_of(prefix, s),
    decreases msgs.len(),
{
    lemma_levels(s);
    if msgs.len() == 0 {
        0
    } else {
        let rest = msgs.drop_last();
        let last = msgs.last();
        let n = msgs.len() - 1;
        let j = lemma_switches(prefix, rest, s);
        crate::topics::lemma_enabled_topic_round_trip(prefix, last.topic, s);
        crate::client::lemma_info_and_enabled_disjoint(prefix, last.topic);
        let here = last.topic == enabled_topic_of(prefix, s);
        assert(here <==> crate::topics::enabled_slug(prefix, last.topic) == Some(s));
        if here {
            assert(switched_at(prefix, msgs, n, s));
            lemma_switch_words(last.payload);
            n
        } else {
            assert(switched_at(prefix, msgs, j, s) == switched_at(prefix, rest, j, s)) by {
                if switched_at(prefix, rest, j, s) {
                    assert(rest[j] == msgs[j]);
                    assert forall|k: int| j < k < msgs.len() implies (#[trigger] msgs[k]).topic
                        != enabled_topic_of(prefix, s) by {
                        if k < n {
                            assert(msgs[k] == rest[k]);
                        }
                    }
                }
                if switched_at(prefix, msgs, j, s) {
                    assert(j != n);
                    assert(rest[j] == msgs[j]);
                    assert forall|k: int| j < k < rest.len() implies (#[trigger] rest[k]).topic
                        != enabled_topic_of(prefix, s) by {
                        assert(msgs[k] == rest[k]);
                    }
                }
            }
            if !switched_at(prefix, msgs, j, s) {
                assert forall|k: int| 0 <= k < msgs.len() implies (#[trigger] msgs[k]).topic
                    != enabled_topic_of(prefix, s) by {
                    if k < n {
                        assert(msgs[k] == rest[k]);
                    }
                }
            } else {
                assert(rest[j] == msgs[j]);
            }
            j
        }
    }
}

proof fn lemma_switch_words(payload: Seq<u8>)
    ensures
        crate::mqtt::body_text(payload) == crate::topics::PAYLOAD_ENABLED@ <==> says_switch(
            payload,
            true,
        ),
        crate::mqtt::body_text(payload) == crate::topics::PAYLOAD_DISABLED@ <==> says_switch(
            payload,
            false,
        ),
        !(says_switch(payload, true) && says_switch(payload, false)),
{
    reveal_strlit("on");
    reveal_strlit("off");
    reveal_strlit("");
    assert("on"@.len() == 2 && "off"@.len() == 3);
    let content = decode_utf8(payload);
    crate::behaviour::commands::lemma_core_is_trimmed(content, "on"@);
    crate::behaviour::commands::lemma_core_is_trimmed(content, "off"@);
    if !valid_utf8(payload) {
        assert(crate::text::trimmed(""@).len() == 0);
    }
}

/// Whether a row of a listing shows what the document says, and silence where it
/// says nothing.
pub open spec fn shows(d: SnapshotView, t: JsonTree) -> bool {
    &&& match member_of(t, "name"@) {
        Some(JsonTree::Text(s)) => d.name == s,
        _ => d.name.len() == 0,
    }
    &&& match member_of(t, "unique_id"@) {
        Some(JsonTree::Text(s)) => d.unique_id == Some(s),
        _ => d.unique_id is None,
    }
    &&& d.bus == low_bits(t, "bus"@)
    &&& d.vendor == low_bits(t, "vendor"@)
    &&& d.product == low_bits(t, "product"@)
    &&& d.version == low_bits(t, "version"@)
}

/// A member of a document.
pub open spec fn member_of(t: JsonTree, key: Seq<char>) -> Option<JsonTree> {
    if t is Object && t->Object_0.contains_key(key) {
        Some(t->Object_0[key])
    } else {
        None
    }
}

/// The low 16 bits of a number, 0 where there is none.
pub open spec fn low_bits(t: JsonTree, key: Seq<char>) -> int {
    match member_of(t, key) {
        Some(JsonTree::Uint(n)) => n as int % 65536,
        _ => 0,
    }
}

proof fn lemma_shows(s: Seq<char>, t: JsonTree, on: Option<bool>)
    ensures
        shows(snapshot(s, t, on), t),
        snapshot(s, t, on).slug == s,
        snapshot(s, t, on).enabled == on,
{
    reveal_strlit("");
}

/// A device is read from its description, each value by its own name.
pub proof fn law_snapshot(
    s: &str,
    info: serde_json::Value,
    on: Option<bool>,
    out: DeviceSnapshot,
)
    requires
        call_ensures(snapshot_from, (s, &info, on), out),
    ensures
        out@.slug == s@,
        out@.enabled == on,
        shows(out@, tree(info)),
{
    lemma_shows(s@, tree(info), on);
}

/// A listing shows, in the order of their slugs, exactly the devices whose last
/// readable description was not cleared.
pub proof fn law_listing(client: Client, msgs: Vec<IncomingPublish>, out: Vec<DeviceSnapshot>)
    requires
        call_ensures(Client::list_devices, (&client, &msgs), out),
    ensures
        forall|i: int, j: int|
            0 <= i < j < out@.len() ==> text_lt((#[trigger] out@[i]).slug@, (#[trigger] out@[j]).slug@),
        forall|k: int|
            0 <= k < out@.len() ==> one_level((#[trigger] out@[k]).slug@) && exists|i: int|
                #[trigger] described_at(client@, messages(msgs@), i, out@[k].slug@),
        forall|i: int, s: Seq<char>|
            one_level(s) && #[trigger] described_at(client@, messages(msgs@), i, s) ==> exists|
                k: int,
            |
                0 <= k < out@.len() && (#[trigger] out@[k]).slug@ == s,
{
    let all = messages(msgs@);
    let g = gathered(client@, all);
    let views = snapshots(out@);
    let slugs = views.map_values(|d: SnapshotView| d.slug);
    assert forall|i: int, j: int| 0 <= i < j < out@.len() implies text_lt(
        (#[trigger] out@[i]).slug@,
        (#[trigger] out@[j]).slug@,
    ) by {
        assert(slugs[i] == out@[i]@.slug && slugs[j] == out@[j]@.slug);
    }
    assert forall|k: int| 0 <= k < out@.len() implies one_level((#[trigger] out@[k]).slug@)
        && exists|i: int| #[trigger] described_at(client@, all, i, out@[k].slug@) by {
        let s = out@[k].slug@;
        assert(slugs[k] == s);
        assert(slugs.contains(s));
        let i = lemma_infos(client@, all, s);
        assert(described_at(client@, all, i, s));
    }
    assert forall|i: int, s: Seq<char>|
        one_level(s) && #[trigger] described_at(client@, all, i, s) implies exists|k: int|
        0 <= k < out@.len() && (#[trigger] out@[k]).slug@ == s by {
        let _ = lemma_infos(client@, all, s);
        assert(g.infos.contains_key(s));
        assert(slugs.contains(s));
        let k = choose|k: int| 0 <= k < slugs.len() && slugs[k] == s;
        assert(out@[k]@.slug == s);
        assert(out@[k].slug@ == s);
    }
}

/// A listed device is shown as it was described last, and switched as was said
/// last on its enabled topic: on, off, or not known.
pub proof fn law_listed_device(
    client: Client,
    msgs: Vec<IncomingPublish>,
    out: Vec<DeviceSnapshot>,
    k: int,
    i: int,
)
    requires
        call_ensures(Client::list_devices, (&client, &msgs), out),
        0 <= k < out@.len(),
        described_at(client@, messages(msgs@), i, out@[k].slug@),
    ensures
        json_document(msgs@[i].payload@) matches Some(t) && shows(out@[k]@, t),
        forall|j: int| #[trigger]
            switched_at(client@, messages(msgs@), j, out@[k].slug@) ==> {
                &&& out@[k].enabled == Some(true) <==> says_switch(msgs@[j].payload@, true)
                &&& out@[k].enabled == Some(false) <==> says_switch(msgs@[j].payload@, false)
            },
        (forall|j: int|
            0 <= j < msgs@.len() ==> (#[trigger] msgs@[j]).topic@ != enabled_topic_of(
                client@,
                out@[k].slug@,
            )) ==> out@[k].enabled is None,
{
    let all = messages(msgs@);
    let g = gathered(client@, all);
    let views = snapshots(out@);
    let slugs = views.map_values(|d: SnapshotView| d.slug);
    let s = out@[k].slug@;
    assert(views[k] == out@[k]@);
    assert(slugs[k] == s);
    assert(slugs.contains(s));
    let m = lemma_infos(client@, all, s);
    assert(described_at(client@, all, m, s));
    assert(m == i) by {
        if m < i {
            assert(all[i].topic == info_topic_of(client@, s));
        }
        if i < m {
            assert(all[m].topic == info_topic_of(client@, s));
        }
    }
    assert(all[i] == msgs@[i]@);
    lemma_shows(s, g.infos[s], switch_of(g, s));
    let j = lemma_switches(client@, all, s);
    assert forall|x: int| #[trigger] switched_at(client@, all, x, s) implies {
        &&& out@[k].enabled == Some(true) <==> says_switch(msgs@[x].payload@, true)
        &&& out@[k].enabled == Some(false) <==> says_switch(msgs@[x].payload@, false)
    } by {
        assert(switched_at(client@, all, j, s)) by {
            assert(all[x].topic == enabled_topic_of(client@, s));
        }
        if x < j {
            assert(all[j].topic != enabled_topic_of(client@, s));
        }
        if j < x {
            assert(all[x].topic != enabled_topic_of(client@, s));
        }
        assert(all[x] == msgs@[x]@);
        lemma_switch_words(msgs@[x].payload@);
    }
    if forall|x: int|
        0 <= x < msgs@.len() ==> (#[trigger] msgs@[x]).topic@ != enabled_topic_of(client@, s) {
        if switched_at(client@, all, j, s) {
            assert(all[j] == msgs@[j]@);
            assert(msgs@[j].topic@ != enabled_topic_of(client@, s));
        }
    }
}

/// Whether `c` is `0x` and the four hexadecimal digits of `n`.
pub open spec fn in_hex(c: Seq<char>, n: u16) -> bool {
    &&& c.len() == 6
    &&& c[0] == '0' && c[1] == 'x'
    &&& hex_number_of(c.skip(2)) == n
    &&& forall|i: int| 2 <= i < 6 ==> '0' <= #[trigger] c[i] <= '9' || 'a' <= c[i] <= 'f'
}

proof fn lemma_in_hex(n: u16)
    ensures
        in_hex(crate::cli::hex_word(n), n),
{
    reveal_strlit("0x");
    assert("0x"@ =~= seq!['0', 'x']);
    lemma_hex(n as nat, 4);
    reveal_with_fuel(fits, 5);
    let c = crate::cli::hex_word(n);
    let digits = hex(n as nat, 4);
    assert(c.skip(2) =~= digits);
    assert(c[0] == "0x"@[0] && c[1] == "0x"@[1]);
    assert forall|i: int| 2 <= i < 6 implies '0' <= #[trigger] c[i] <= '9' || 'a' <= c[i]
        <= 'f' by {
        assert(c[i] == digits[i - 2]);
    }
}

/// The table of devices has a head and a row per device: slug, switch, name,
/// serial, and the four ids in hexadecimal.
pub proof fn law_rows(devices: Vec<DeviceSnapshot>, out: Vec<Vec<String>>, k: int)
    requires
        call_ensures(device_rows, (&devices,), out),
        0 <= k < devices@.len(),
    ensures
        out@.len() == devices@.len() + 1,
        texts(out@[0]@) == seq![
            "slug"@,
            "enabled"@,
            "name"@,
            "unique_id"@,
            "bus"@,
            "vendor"@,
            "product"@,
            "version"@,
        ],
        ({
            let (d, r) = (devices@[k], out@[k + 1]@);
            &&& r.len() == 8
            &&& r[0]@ == d.slug@
            &&& d.enabled == Some(true) ==> r[1]@ == "on"@
            &&& d.enabled == Some(false) ==> r[1]@ == "off"@
            &&& d.enabled is None ==> r[1]@ == "?"@
            &&& r[2]@ == d.name@
            &&& match d.unique_id {
                Some(u) => r[3]@ == u@,
                None => r[3]@ == "-"@,
            }
            &&& in_hex(r[4]@, d.bus)
            &&& in_hex(r[5]@, d.vendor)
            &&& in_hex(r[6]@, d.product)
            &&& in_hex(r[7]@, d.version)
        }),
{
    let all = cells(out@);
    let d = devices@[k];
    assert(all.len() == out@.len());
    assert(all[0] == texts(out@[0]@));
    assert(all[k + 1] == texts(out@[k + 1]@));
    assert(snapshots(devices@)[k] == d@);
    assert(all[k + 1] == row(d@));
    let r = texts(out@[k + 1]@);
    assert(r.len() == out@[k + 1]@.len());
    assert(r[0] == out@[k + 1]@[0]@ && r[1] == out@[k + 1]@[1]@ && r[2] == out@[k + 1]@[2]@ && r[3]
        == out@[k + 1]@[3]@ && r[4] == out@[k + 1]@[4]@ && r[5] == out@[k + 1]@[5]@ && r[6] == out@[
        k + 1]@[6]@ && r[7] == out@[k + 1]@[7]@);
    lemma_in_hex(d.bus);
    lemma_in_hex(d.vendor);
    lemma_in_hex(d.product);
    lemma_in_hex(d.version);
}

/// What is printed is the table of the rows, or that there are no devices.
pub proof fn law_printed(
    host: &str,
    devices: Vec<DeviceSnapshot>,
    out: String,
    rows: Vec<Vec<String>>,
)
    requires
        call_ensures(list_devices, (host, &devices), out),
        call_ensures(device_rows, (&devices,), rows),
    ensures
        devices@.len() == 0 ==> out@ == "no devices known to "@ + host@,
        devices@.len() > 0 ==> out@ == table_text(
            rows@.map_values(|r: Vec<String>| texts(r@)),
        ),
{
    assert(cells(rows@) == rows@.map_values(|r: Vec<String>| texts(r@)));
}

/// The management commands send one message per slug, in order, and confirm it.
pub proof fn law_orders(
    client: Client,
    slugs: Vec<String>,
    enable: Vec<Order>,
    disable: Vec<Order>,
    remove: Vec<Order>,
    k: int,
)
    requires
        call_ensures(enable_devices, (&client, &slugs), enable),
        call_ensures(disable_devices, (&client, &slugs), disable),
        call_ensures(remove_devices, (&client, &slugs), remove),
        0 <= k < slugs@.len(),
    ensures
        enable@.len() == slugs@.len(),
        disable@.len() == slugs@.len(),
        remove@.len() == slugs@.len(),
        ({
            let s = slugs@[k]@;
            let topic = client@ + "/_devices/"@ + s + "/enabled"@;
            let (x, y, z) = (enable@[k], disable@[k], remove@[k]);
            &&& x.publish.topic@ == topic && x.publish.retain && x.publish.payload@ == encode_utf8(
                "on"@,
            ) && x.confirmation@ == "enabled"@ + " "@ + s
            &&& y.publish.topic@ == topic && y.publish.retain && y.publish.payload@ == encode_utf8(
                "off"@,
            ) && y.confirmation@ == "disabled"@ + " "@ + s
            &&& z.publish.topic@ == topic && z.publish.retain && z.publish.payload@.len() == 0
                && z.confirmation@ == "removed"@ + " "@ + s
        }),
{
    let s = slugs@[k]@;
    assert(texts(slugs@).len() == slugs@.len());
    assert(texts(slugs@)[k] == s);
    assert(orders(enable@).len() == enable@.len());
    assert(orders(enable@)[k] == enable@[k]@);
    assert(orders(disable@).len() == disable@.len());
    assert(orders(disable@)[k] == disable@[k]@);
    assert(orders(remove@).len() == remove@.len());
    assert(orders(remove@)[k] == remove@[k]@);
    assert(enable@[k]@ == order(client@, Verb::Enable, s));
    assert(disable@[k]@ == order(client@, Verb::Disable, s));
    assert(remove@[k]@ == order(client@, Verb::Remove, s));
    assert(enable@[k].publish@.topic == enabled_topic_of(client@, s));
    assert(disable@[k].publish@.topic == enabled_topic_of(client@, s));
    assert(remove@[k].publish@.topic == enabled_topic_of(client@, s));
}

} // verus!
