//! MQTT topics and payloads.

use crate::text::{chars_of, ends, has_char, has_prefix, has_suffix, starts};
use vstd::prelude::*;
use vstd::string::*;

verus! {

pub const PAYLOAD_AVAILABLE: &'static str = "online";

pub const PAYLOAD_NOT_AVAILABLE: &'static str = "offline";

pub const PAYLOAD_ENABLED: &'static str = "on";

pub const PAYLOAD_DISABLED: &'static str = "off";

/// What happened to a key.
#[derive(Debug, Clone, Copy, PartialEq, Eq, Hash, Structural)]
pub enum Action {
    Press,
    Release,
}

impl Action {
    /// The word that ends an event's payload.
    pub open spec fn word(self) -> Seq<char> {
        match self {
            Action::Press => "press"@,
            Action::Release => "release"@,
        }
    }

    /// The HA trigger type.
    pub open spec fn trigger_type(self) -> Seq<char> {
        match self {
            Action::Press => "button_short_press"@,
            Action::Release => "button_short_release"@,
        }
    }

    pub fn as_str(self) -> (out: &'static str)
        ensures
            out@ == self.word(),
    {
        match self {
            Action::Press => "press",
            Action::Release => "release",
        }
    }

    /// HA "type" string used in the device_automation discovery payload.
    pub fn ha_type(self) -> (out: &'static str)
        ensures
            out@ == self.trigger_type(),
    {
        match self {
            Action::Press => "button_short_press",
            Action::Release => "button_short_release",
        }
    }
}

pub open spec fn action_topic_text(prefix: Seq<char>, slug: Seq<char>) -> Seq<char> {
    prefix + "/"@ + slug + "/action"@
}

pub open spec fn availability_topic_text(prefix: Seq<char>) -> Seq<char> {
    prefix + "/status"@
}

pub open spec fn info_topic_text(prefix: Seq<char>, slug: Seq<char>) -> Seq<char> {
    prefix + "/_devices/"@ + slug
}

pub open spec fn enabled_topic_text(prefix: Seq<char>, slug: Seq<char>) -> Seq<char> {
    prefix + "/_devices/"@ + slug + "/enabled"@
}

pub open spec fn identifier_text(prefix: Seq<char>, slug: Seq<char>) -> Seq<char> {
    prefix + "_"@ + slug
}

pub open spec fn discovery_topic_text(
    discovery_prefix: Seq<char>,
    identifier: Seq<char>,
) -> Seq<char> {
    discovery_prefix + "/device/"@ + identifier + "/config"@
}

/// One topic level: not empty and without a separator.
pub open spec fn is_segment(s: Seq<char>) -> bool {
    s.len() > 0 && !s.contains('/')
}

/// The level between `{prefix}/_devices/` and `/enabled` in `topic`.
pub open spec fn enabled_slug(prefix: Seq<char>, topic: Seq<char>) -> Option<Seq<char>> {
    let head = prefix + "/_devices/"@;
    let rest = topic.skip(head.len() as int);
    let slug = rest.take(rest.len() - "/enabled"@.len());
    if starts(topic, head) && ends(rest, "/enabled"@) && is_segment(slug) {
        Some(slug)
    } else {
        None
    }
}

/// Per-device shared action topic.
pub fn action_topic(topic_prefix: &str, slug: &str) -> (out: String)
    ensures
        out@ == action_topic_text(topic_prefix@, slug@),
{
    let mut out: String = topic_prefix.to_owned();
    out.append("/");
    out.append(slug);
    out.append("/action");
    out
}

/// MQTT availability topic for the whole gateway (LWT).
pub fn availability_topic(topic_prefix: &str) -> (out: String)
    ensures
        out@ == availability_topic_text(topic_prefix@),
{
    let mut out: String = topic_prefix.to_owned();
    out.append("/status");
    out
}

/// Retained JSON describing one known device.
pub fn device_info_topic(topic_prefix: &str, slug: &str) -> (out: String)
    ensures
        out@ == info_topic_text(topic_prefix@, slug@),
{
    let mut out: String = topic_prefix.to_owned();
    out.append("/_devices/");
    out.append(slug);
    out
}

/// Retained `on`/`off`. Reading reports current state; writing is a
/// command to the daemon.
pub fn device_enabled_topic(topic_prefix: &str, slug: &str) -> (out: String)
    ensures
        out@ == enabled_topic_text(topic_prefix@, slug@),
{
    let mut out: String = topic_prefix.to_owned();
    out.append("/_devices/");
    out.append(slug);
    out.append("/enabled");
    out
}

/// MQTT wildcard the daemon subscribes to in order to receive enable
/// and disable commands: the enabled topic with `+` for the slug.
pub fn device_enabled_wildcard(topic_prefix: &str) -> (out: String)
    ensures
        out@ == enabled_topic_text(topic_prefix@, "+"@),
{
    device_enabled_topic(topic_prefix, "+")
}

/// MQTT wildcard for the info topics: the info topic with `+` for the slug.
pub fn device_info_wildcard(topic_prefix: &str) -> (out: String)
    ensures
        out@ == info_topic_text(topic_prefix@, "+"@),
{
    device_info_topic(topic_prefix, "+")
}

/// Try to split `{prefix}/_devices/{slug}/enabled` back into its slug.
/// Returns `None` for topics that don't match the shape.
pub fn parse_enabled_topic<'a>(topic_prefix: &str, topic: &'a str) -> (res: Option<&'a str>)
    ensures
        crate::text::opt_str(res) == enabled_slug(topic_prefix@, topic@),
{
    let mut head: String = topic_prefix.to_owned();
    head.append("/_devices/");
    let head = chars_of(head.as_str());
    let tail = chars_of("/enabled");
    let all = chars_of(topic);
    if !has_prefix(&all, &head) {
        return None;
    }
    let from: usize = head.len();
    let rest_text: &'a str = topic.substring_char(from, all.len());
    assert(rest_text@ =~= topic@.skip(from as int));
    let rest = chars_of(rest_text);
    if !has_suffix(&rest, &tail) {
        return None;
    }
    let n: usize = rest.len() - tail.len();
    let slug: &'a str = rest_text.substring_char(0, n);
    assert(slug@ =~= rest@.take(n as int));
    let mid = chars_of(slug);
    if mid.len() == 0 || has_char(&mid, '/') {
        return None;
    }
    Some(slug)
}

/// HA device-level identifier: the value used in `device.identifiers`.
/// Namespaced by `topic_prefix` so two evmqtt-rs instances on the same
/// broker don't collide.
pub fn device_identifier(topic_prefix: &str, slug: &str) -> (out: String)
    ensures
        out@ == identifier_text(topic_prefix@, slug@),
{
    let mut out: String = topic_prefix.to_owned();
    out.append("_");
    out.append(slug);
    out
}

/// HA per-device discovery topic for the device-based bundle format.
pub fn device_discovery_topic(discovery_prefix: &str, identifier: &str) -> (out: String)
    ensures
        out@ == discovery_topic_text(discovery_prefix@, identifier@),
{
    let mut out: String = discovery_prefix.to_owned();
    out.append("/device/");
    out.append(identifier);
    out.append("/config");
    out
}

/// An enabled topic parses to `slug` exactly when it was built for `slug` and
/// `slug` is one topic level.
pub proof fn lemma_enabled_topic_round_trip(prefix: Seq<char>, topic: Seq<char>, slug: Seq<char>)
    ensures
        enabled_slug(prefix, topic) == Some(slug) <==> is_segment(slug) && topic
            == enabled_topic_text(prefix, slug),
{
    let head = prefix + "/_devices/"@;
    let tail = "/enabled"@;
    let rest = topic.skip(head.len() as int);
    if enabled_slug(prefix, topic) == Some(slug) {
        assert(rest =~= slug + tail);
        assert(topic =~= head + rest);
        assert(topic =~= enabled_topic_text(prefix, slug));
    }
    if is_segment(slug) && topic == enabled_topic_text(prefix, slug) {
        assert(topic =~= head + (slug + tail));
        assert(topic.take(head.len() as int) =~= head);
        assert(rest =~= slug + tail);
        assert(rest.skip(rest.len() - tail.len()) =~= tail);
        assert(rest.take(rest.len() - tail.len()) =~= slug);
    }
}

/// An enabled topic names one device only.
pub proof fn lemma_enabled_topic_injective(prefix: Seq<char>, a: Seq<char>, b: Seq<char>)
    requires
        enabled_topic_text(prefix, a) == enabled_topic_text(prefix, b),
    ensures
        a == b,
{
    let head = prefix + "/_devices/"@;
    let x = enabled_topic_text(prefix, a);
    let n = head.len() as int;
    let m = x.len() - "/enabled"@.len();
    assert(x.subrange(n, m) =~= a);
    assert(enabled_topic_text(prefix, b).subrange(n, m) =~= b);
}

/// Action topics of different devices differ.
pub proof fn lemma_action_topic_injective(prefix: Seq<char>, a: Seq<char>, b: Seq<char>)
    requires
        action_topic_text(prefix, a) == action_topic_text(prefix, b),
    ensures
        a == b,
{
    let x = action_topic_text(prefix, a);
    let n = (prefix + "/"@).len() as int;
    let m = x.len() - "/action"@.len();
    assert(x.subrange(n, m) =~= a);
    assert(action_topic_text(prefix, b).subrange(n, m) =~= b);
}

/// Two gateways never share a device identifier: as long as slugs hold no
/// underscore, an identifier determines both its prefix and its slug.
pub proof fn lemma_identifier_injective(
    prefix_a: Seq<char>,
    slug_a: Seq<char>,
    prefix_b: Seq<char>,
    slug_b: Seq<char>,
)
    requires
        !slug_a.contains('_'),
        !slug_b.contains('_'),
        identifier_text(prefix_a, slug_a) == identifier_text(prefix_b, slug_b),
    ensures
        prefix_a == prefix_b,
        slug_a == slug_b,
{
    reveal_strlit("_");
    let x = identifier_text(prefix_a, slug_a);
    let y = identifier_text(prefix_b, slug_b);
    assert("_"@ =~= seq!['_']);
    assert(x.len() == prefix_a.len() + 1 + slug_a.len());
    assert(y.len() == prefix_b.len() + 1 + slug_b.len());
    assert(x[prefix_a.len() as int] == '_');
    assert(y[prefix_b.len() as int] == '_');
    if prefix_a.len() < prefix_b.len() {
        assert(x[prefix_b.len() as int] == slug_a[prefix_b.len() - prefix_a.len() - 1]);
    }
    if prefix_b.len() < prefix_a.len() {
        assert(y[prefix_a.len() as int] == slug_b[prefix_a.len() - prefix_b.len() - 1]);
    }
    assert(x.take(prefix_a.len() as int) =~= prefix_a);
    assert(y.take(prefix_b.len() as int) =~= prefix_b);
    assert(x.skip(prefix_a.len() as int + 1) =~= slug_a);
    assert(y.skip(prefix_b.len() as int + 1) =~= slug_b);
}

} // verus!
