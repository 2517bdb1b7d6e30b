//! Topics and the words that travel on them.

use crate::client::parse_info_slug;
use crate::topics::{
    action_topic, availability_topic, device_discovery_topic, device_enabled_topic,
    device_enabled_wildcard, device_identifier, device_info_topic, device_info_wildcard,
    enabled_topic_text, info_topic_text, lemma_enabled_topic_round_trip, parse_enabled_topic,
    Action, PAYLOAD_AVAILABLE, PAYLOAD_DISABLED, PAYLOAD_ENABLED, PAYLOAD_NOT_AVAILABLE,
};
use vstd::prelude::*;
use vstd::string::*;

verus! {

/// The words of the switch and of the availability topic.
pub proof fn law_payload_words()
    ensures
        PAYLOAD_ENABLED@ == seq!['o', 'n'],
        PAYLOAD_DISABLED@ == seq!['o', 'f', 'f'],
        PAYLOAD_AVAILABLE@ == seq!['o', 'n', 'l', 'i', 'n', 'e'],
        PAYLOAD_NOT_AVAILABLE@ == seq!['o', 'f', 'f', 'l', 'i', 'n', 'e'],
{
    reveal_strlit("on");
    reveal_strlit("off");
    reveal_strlit("online");
    reveal_strlit("offline");
}

/// The words for what happened to a key.
pub proof fn law_action_words(a: Action, word: &'static str, kind: &'static str)
    requires
        call_ensures(Action::as_str, (a,), word),
        call_ensures(Action::ha_type, (a,), kind),
    ensures
        a is Press ==> word@ == "press"@ && kind@ == "button_short_press"@,
        a is Release ==> word@ == "release"@ && kind@ == "button_short_release"@,
{
}

/// Where the events of a device are published.
pub proof fn law_action_topic(prefix: &str, slug: &str, out: String)
    requires
        call_ensures(action_topic, (prefix, slug), out),
    ensures
        out@ == prefix@ + "/"@ + slug@ + "/action"@,
{
}

/// Where the gateway says whether it is there.
pub proof fn law_availability_topic(prefix: &str, out: String)
    requires
        call_ensures(availability_topic, (prefix,), out),
    ensures
        out@ == prefix@ + "/status"@,
{
}

/// Where a device is described.
pub proof fn law_info_topic(prefix: &str, slug: &str, out: String)
    requires
        call_ensures(device_info_topic, (prefix, slug), out),
    ensures
        out@ == prefix@ + "/_devices/"@ + slug@,
{
}

/// Where a device is switched on and off.
pub proof fn law_enabled_topic(prefix: &str, slug: &str, out: String)
    requires
        call_ensures(device_enabled_topic, (prefix, slug), out),
    ensures
        out@ == prefix@ + "/_devices/"@ + slug@ + "/enabled"@,
{
}

/// The wildcards are the topics with a plus sign for the slug.
pub proof fn law_wildcards(prefix: &str, info: String, enabled: String)
    requires
        call_ensures(device_info_wildcard, (prefix,), info),
        call_ensures(device_enabled_wildcard, (prefix,), enabled),
    ensures
        info@ == prefix@ + "/_devices/"@ + seq!['+'],
        enabled@ == prefix@ + "/_devices/"@ + seq!['+'] + "/enabled"@,
{
    reveal_strlit("+");
    assert("+"@ =~= seq!['+']);
}

/// How Home Assistant calls a device, and where it finds it.
pub proof fn law_discovery_topic(
    prefix: &str,
    slug: &str,
    id: String,
    discovery_prefix: &str,
    identifier: &str,
    out: String,
)
    requires
        call_ensures(device_identifier, (prefix, slug), id),
        call_ensures(device_discovery_topic, (discovery_prefix, identifier), out),
    ensures
        id@ == prefix@ + "_"@ + slug@,
        out@ == discovery_prefix@ + "/device/"@ + identifier@ + "/config"@,
{
}

/// One level of a topic.
pub open spec fn one_level(s: Seq<char>) -> bool {
    s.len() > 0 && forall|i: int| 0 <= i < s.len() ==> #[trigger] s[i] != '/'
}

/// A topic is the enabled topic of the device that it was made for, and of none
/// otherwise.
pub proof fn law_parse_enabled_topic(prefix: &str, topic: &str, res: Option<&str>)
    requires
        call_ensures(parse_enabled_topic, (prefix, topic), res),
    ensures
        res matches Some(s) ==> one_level(s@) && topic@ == prefix@ + "/_devices/"@ + s@
            + "/enabled"@,
        res is None ==> forall|s: Seq<char>|
            one_level(s) ==> topic@ != #[trigger] enabled_topic_of(prefix@, s),
{
    assert forall|s: Seq<char>| #[trigger]
        enabled_topic_of(prefix@, s) == enabled_topic_text(prefix@, s) by {}
    if let Some(s) = res {
        lemma_enabled_topic_round_trip(prefix@, topic@, s@);
        assert(!s@.contains('/'));
    } else {
        assert forall|s: Seq<char>| one_level(s) implies topic@ != #[trigger] enabled_topic_of(
            prefix@,
            s,
        ) by {
            lemma_enabled_topic_round_trip(prefix@, topic@, s);
        }
    }
}

/// The enabled topic of a device.
pub open spec fn enabled_topic_of(prefix: Seq<char>, s: Seq<char>) -> Seq<char> {
    prefix + "/_devices/"@ + s + "/enabled"@
}

/// The info topic of a device.
pub open spec fn info_topic_of(prefix: Seq<char>, s: Seq<char>) -> Seq<char> {
    prefix + "/_devices/"@ + s
}

/// A topic is the info topic of the device that it was made for, and of none
/// otherwise.
pub proof fn law_parse_info_topic(prefix: &str, topic: &str, res: Option<&str>)
    requires
        call_ensures(parse_info_slug, (prefix, topic), res),
    ensures
        res matches Some(s) ==> one_level(s@) && topic@ == prefix@ + "/_devices/"@ + s@,
        res is None ==> forall|s: Seq<char>|
            one_level(s) ==> topic@ != #[trigger] info_topic_of(prefix@, s),
{
    assert forall|s: Seq<char>| #[trigger]
        info_topic_of(prefix@, s) == info_topic_text(prefix@, s) by {}
    if let Some(s) = res {
        crate::client::lemma_info_topic_round_trip(prefix@, topic@, s@);
        assert(!s@.contains('/'));
    } else {
        assert forall|s: Seq<char>| one_level(s) implies topic@ != #[trigger] info_topic_of(
            prefix@,
            s,
        ) by {
            crate::client::lemma_info_topic_round_trip(prefix@, topic@, s);
        }
    }
}

} // verus!
