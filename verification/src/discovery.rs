//! What is known of an open input device, and how devices are told apart.

use crate::codes::{has_code, lemma_sorted_codes, lemma_sorted_codes_ensures, sort_codes, sorted_codes};
use crate::text::{
    chars_of, has_prefix, hex, hex_text, lemma_text_order, opt_text, sorts_before, starts, text_lt,
    texts,
};
use vstd::prelude::*;
use vstd::relations::{sorted_by, total_ordering};
use vstd::string::*;

verus! {

/// The directory that holds the device nodes.
pub const INPUT_DIR: &'static str = "/dev/input";

/// The event type of key events.
pub const EV_KEY: u16 = 0x01;

pub const KEY_A: u16 = 30;

pub const KEY_KP0: u16 = 82;

pub const REL_X: u16 = 0;

pub const REL_Y: u16 = 1;

pub const FNV_OFFSET_BASIS: u64 = 0xcbf29ce4_84222325;

pub const FNV_PRIME: u64 = 0x00000100_000001b3;

/// Everything we know about an open input device. The first batch of
/// fields comes from evdev ioctls (EVIOCGNAME / EVIOCGUNIQ / EVIOCGID /
/// EVIOCGPHYS), the same kernel sources that populate
/// `/sys/class/input/eventN/device/{name,uniq,id/*,phys}`. The
/// capability fields are computed from the device's supported event
/// types / codes and are how we tell apart the multiple `eventN` nodes
/// of a single USB receiver that share name + BVPV + phys.
#[derive(Debug, PartialEq, Eq)]
pub struct DeviceIdentity {
    pub path: String,
    pub name: String,
    pub unique_id: Option<String>,
    pub bus: u16,
    pub vendor: u16,
    pub product: u16,
    pub version: u16,
    pub physical_path: Option<String>,
    pub has_keys: bool,
    /// Stable hex hash of the device's exposed capabilities (event
    /// types + key codes + REL/ABS axes). The same physical interface,
    /// even moved between USB ports, produces the same value. Empty when
    /// the capabilities were not read.
    pub capability_fingerprint: String,
    /// Short human tag derived from capabilities (`kbd`, `numpad`,
    /// `mouse`, `other`) used to disambiguate display names in HA when
    /// a single USB receiver registers several otherwise-identically-
    /// named records. Empty when the capabilities were not read.
    pub capability_tag: &'static str,
}

/// The values in a [`DeviceIdentity`].
pub struct IdentityView {
    pub path: Seq<char>,
    pub name: Seq<char>,
    pub unique_id: Option<Seq<char>>,
    pub bus: u16,
    pub vendor: u16,
    pub product: u16,
    pub version: u16,
    pub physical_path: Option<Seq<char>>,
    pub has_keys: bool,
    pub capability_fingerprint: Seq<char>,
    pub capability_tag: Seq<char>,
}

impl View for DeviceIdentity {
    type V = IdentityView;

    open spec fn view(&self) -> IdentityView {
        IdentityView {
            path: self.path@,
            name: self.name@,
            unique_id: opt_text(self.unique_id),
            bus: self.bus,
            vendor: self.vendor,
            product: self.product,
            version: self.version,
            physical_path: opt_text(self.physical_path),
            has_keys: self.has_keys,
            capability_fingerprint: self.capability_fingerprint@,
            capability_tag: self.capability_tag@,
        }
    }
}

impl Clone for DeviceIdentity {
    fn clone(&self) -> (out: Self)
        ensures
            out@ == self@,
    {
        DeviceIdentity {
            path: self.path.clone(),
            name: self.name.clone(),
            unique_id: self.unique_id.clone(),
            bus: self.bus,
            vendor: self.vendor,
            product: self.product,
            version: self.version,
            physical_path: self.physical_path.clone(),
            has_keys: self.has_keys,
            capability_fingerprint: self.capability_fingerprint.clone(),
            capability_tag: self.capability_tag,
        }
    }
}

/// What an open evdev device reports about itself.
#[derive(Debug, PartialEq, Eq)]
pub struct OpenDevice {
    pub name: Option<String>,
    pub unique_name: Option<String>,
    pub physical_path: Option<String>,
    pub bus: u16,
    pub vendor: u16,
    pub product: u16,
    pub version: u16,
    /// Supported event types.
    pub event_types: Vec<u16>,
    /// Supported codes of each kind; `None` where the device has none.
    pub keys: Option<Vec<u16>>,
    pub relative_axes: Option<Vec<u16>>,
    pub absolute_axes: Option<Vec<u16>>,
}

/// The codes of an optional list.
pub open spec fn opt_codes(codes: Option<Vec<u16>>) -> Seq<u16> {
    match codes {
        Some(c) => c@,
        None => Seq::empty(),
    }
}

/// A text that is absent or empty counts as absent.
pub open spec fn nonempty(o: Option<String>) -> Option<Seq<char>> {
    match o {
        Some(s) => if s@.len() == 0 {
            None
        } else {
            Some(s@)
        },
        None => None,
    }
}

fn nonempty_text(o: &Option<String>) -> (out: Option<String>)
    ensures
        opt_text(out) == nonempty(*o),
{
    match o {
        Some(s) => if s.as_str().is_empty() {
            None
        } else {
            Some(s.clone())
        },
        None => None,
    }
}

impl OpenDevice {
    /// The identity of this device when opened at `path`.
    pub open spec fn identity(self, path: Seq<char>) -> IdentityView {
        IdentityView {
            path,
            name: match self.name {
                Some(n) => n@,
                None => "unknown"@,
            },
            unique_id: nonempty(self.unique_name),
            bus: self.bus,
            vendor: self.vendor,
            product: self.product,
            version: self.version,
            physical_path: nonempty(self.physical_path),
            has_keys: self.event_types@.contains(EV_KEY),
            capability_fingerprint: fingerprint(self),
            capability_tag: tag(
                Some(opt_codes(self.keys)),
                Some(opt_codes(self.relative_axes)),
            ),
        }
    }
}

impl DeviceIdentity {
    pub fn from_open_device(path: String, device: &OpenDevice) -> (out: Self)
        ensures
            out@ == device.identity(path@),
    {
        let name: String = match &device.name {
            Some(n) => n.clone(),
            None => "unknown".to_owned(),
        };
        DeviceIdentity {
            path,
            name,
            unique_id: nonempty_text(&device.unique_name),
            bus: device.bus,
            vendor: device.vendor,
            product: device.product,
            version: device.version,
            physical_path: nonempty_text(&device.physical_path),
            has_keys: has_code(&device.event_types, EV_KEY),
            capability_fingerprint: capability_fingerprint(device),
            capability_tag: capability_tag(device),
        }
    }
}

/// One FNV-1a round.
pub open spec fn fnv_byte(hash: u64, b: u8) -> u64 {
    (hash ^ (b as u64)).wrapping_mul(FNV_PRIME)
}

/// Folds the two bytes of `v`, low byte first, into `hash`.
pub open spec fn fnv_code(hash: u64, v: u16) -> u64 {
    fnv_byte(fnv_byte(hash, (v % 256) as u8), (v / 256) as u8)
}

/// The FNV-1a hash of `codes`, continued from `hash`.
pub open spec fn fnv(hash: u64, codes: Seq<u16>) -> u64
    decreases codes.len(),
{
    if codes.len() == 0 {
        hash
    } else {
        fnv_code(fnv(hash, codes.drop_last()), codes.last())
    }
}

/// The list that is hashed: four sorted sections, each behind its marker.
pub open spec fn capability_list(device: OpenDevice) -> Seq<u16> {
    sections(
        sorted_codes(device.event_types@),
        sorted_codes(opt_codes(device.keys)),
        sorted_codes(opt_codes(device.relative_axes)),
        sorted_codes(opt_codes(device.absolute_axes)),
    )
}

/// Four sections, each behind its marker.
pub open spec fn sections(types: Seq<u16>, keys: Seq<u16>, rels: Seq<u16>, abss: Seq<u16>) -> Seq<
    u16,
> {
    seq![0xE001u16] + types + seq![0xE002u16] + keys + seq![0xE003u16] + rels + seq![0xE004u16]
        + abss
}

/// The capability fingerprint of `device`.
pub open spec fn fingerprint(device: OpenDevice) -> Seq<char> {
    hex(fnv(FNV_OFFSET_BASIS, capability_list(device)) as nat, 16)
}

fn mix(hash: u64, v: u16) -> (out: u64)
    ensures
        out == fnv_code(hash, v),
{
    let lo: u8 = (v % 256) as u8;
    let hi: u8 = (v / 256) as u8;
    let h: u64 = (hash ^ (lo as u64)).wrapping_mul(FNV_PRIME);
    (h ^ (hi as u64)).wrapping_mul(FNV_PRIME)
}

/// Hashes one more section, given the hash of what precedes it.
fn mix_section(hash: u64, marker: u16, codes: &Vec<u16>, Ghost(before): Ghost<Seq<u16>>) -> (out:
    u64)
    requires
        hash == fnv(FNV_OFFSET_BASIS, before),
    ensures
        out == fnv(FNV_OFFSET_BASIS, before + seq![marker] + sorted_codes(codes@)),
{
    let sorted = sort_codes(codes);
    let mut h: u64 = mix(hash, marker);
    let ghost head = before + seq![marker];
    assert(head.drop_last() =~= before);
    assert(head + sorted@.take(0) =~= head);
    let mut i: usize = 0;
    while i < sorted.len()
        invariant
            i <= sorted@.len(),
            h == fnv(FNV_OFFSET_BASIS, head + sorted@.take(i as int)),
        decreases sorted@.len() - i,
    {
        h = mix(h, sorted[i]);
        proof {
            let next = head + sorted@.take(i + 1);
            assert(next.drop_last() =~= head + sorted@.take(i as int));
            assert(next.last() == sorted@[i as int]);
        }
        i += 1;
    }
    assert(sorted@.take(sorted@.len() as int) =~= sorted@);
    h
}

/// Compute a stable hex fingerprint of `device`'s capabilities.
///
/// Folds (sorted) supported event types, key codes, REL axes, and ABS
/// axes into a single 64-bit FNV-1a hash. FNV-1a is used because its
/// algorithm is fully specified, so the digest stays stable across Rust
/// releases and platforms: the value lands in the on-disk DB. Section
/// markers keep two sections with similar bit patterns from colliding
/// (e.g. KEY_A and REL_X both have small numeric codes).
pub fn capability_fingerprint(device: &OpenDevice) -> (out: String)
    ensures
        out@ == fingerprint(*device),
{
    let empty: Vec<u16> = Vec::new();
    let keys: &Vec<u16> = match &device.keys {
        Some(c) => c,
        None => &empty,
    };
    let rels: &Vec<u16> = match &device.relative_axes {
        Some(c) => c,
        None => &empty,
    };
    let abss: &Vec<u16> = match &device.absolute_axes {
        Some(c) => c,
        None => &empty,
    };
    let ghost s0 = Seq::<u16>::empty();
    let ghost s1 = s0 + seq![0xE001u16] + sorted_codes(device.event_types@);
    let ghost s2 = s1 + seq![0xE002u16] + sorted_codes(keys@);
    let ghost s3 = s2 + seq![0xE003u16] + sorted_codes(rels@);
    let ghost s4 = s3 + seq![0xE004u16] + sorted_codes(abss@);
    let h1 = mix_section(FNV_OFFSET_BASIS, 0xE001, &device.event_types, Ghost(s0));
    let h2 = mix_section(h1, 0xE002, keys, Ghost(s1));
    let h3 = mix_section(h2, 0xE003, rels, Ghost(s2));
    let h4 = mix_section(h3, 0xE004, abss, Ghost(s3));
    proof {
        assert(keys@ =~= opt_codes(device.keys));
        assert(rels@ =~= opt_codes(device.relative_axes));
        assert(abss@ =~= opt_codes(device.absolute_axes));
        assert(s4 =~= capability_list(*device));
    }
    hex_text(h4, 16)
}

/// The tag for a device with these key codes and relative axes.
pub open spec fn tag(keys: Option<Seq<u16>>, rels: Option<Seq<u16>>) -> Seq<char> {
    if keys matches Some(k) && k.contains(KEY_A) {
        "kbd"@
    } else if keys matches Some(k) && k.contains(KEY_KP0) {
        "numpad"@
    } else if rels matches Some(r) && r.contains(REL_X) && r.contains(REL_Y) {
        "mouse"@
    } else {
        "other"@
    }
}

/// Best-effort classification of a device into a short, human-readable
/// tag. Used only to differentiate display names; matching is by
/// fingerprint, not tag (two devices that classify to the same tag
/// will still have distinct fingerprints).
///
/// The order is deliberate. A typing keyboard with extra media /
/// power keys is still a keyboard, so `KEY_A` wins first. A device
/// with only `KEY_KP*` (no letters) is a numpad. After that, REL_X/Y
/// is the canonical mouse signature. Everything else falls through to
/// `"other"`; distinctness between those is preserved by the capability
/// fingerprint, not by the tag.
pub fn capability_tag(device: &OpenDevice) -> (out: &'static str)
    ensures
        out@ == tag(Some(opt_codes(device.keys)), Some(opt_codes(device.relative_axes))),
{
    classify_capabilities(device.keys.as_ref(), device.relative_axes.as_ref())
}

/// The codes behind an optional reference.
pub open spec fn opt_codes_ref(codes: Option<&Vec<u16>>) -> Option<Seq<u16>> {
    match codes {
        Some(c) => Some(c@),
        None => None,
    }
}

/// The classification behind [`capability_tag`], on the code lists themselves.
pub fn classify_capabilities(keys: Option<&Vec<u16>>, rels: Option<&Vec<u16>>) -> (out:
    &'static str)
    ensures
        out@ == tag(opt_codes_ref(keys), opt_codes_ref(rels)),
{
    if let Some(keys) = keys {
        if has_code(keys, KEY_A) {
            return "kbd";
        }
        if has_code(keys, KEY_KP0) {
            return "numpad";
        }
    }
    if let Some(rels) = rels {
        if has_code(rels, REL_X) && has_code(rels, REL_Y) {
            return "mouse";
        }
    }
    "other"
}

/// ASCII digits.
pub open spec fn is_digit(c: char) -> bool {
    '0' <= c <= '9'
}

/// `event` followed by one or more digits.
pub open spec fn event_node(name: Seq<char>) -> bool {
    &&& starts(name, "event"@)
    &&& name.len() > 5
    &&& forall|i: int| 5 <= i < name.len() ==> is_digit(#[trigger] name[i])
}

/// True iff `name` looks like an `eventN` node where N is one or more
/// ASCII digits.
pub fn is_event_node(name: &str) -> (yes: bool)
    ensures
        yes == event_node(name@),
{
    let chars = chars_of(name);
    let head = chars_of("event");
    proof {
        reveal_strlit("event");
    }
    if !has_prefix(&chars, &head) || chars.len() <= 5 {
        return false;
    }
    let mut i: usize = 5;
    while i < chars.len()
        invariant
            5 <= i <= chars@.len(),
            chars@ == name@,
            forall|j: int| 5 <= j < i ==> is_digit(#[trigger] name@[j]),
        decreases chars@.len() - i,
    {
        if !('0' <= chars[i] && chars[i] <= '9') {
            assert(!is_digit(name@[i as int]));
            return false;
        }
        i += 1;
    }
    true
}

/// The full path of the node `name`.
pub open spec fn node_path(name: Seq<char>) -> Seq<char> {
    INPUT_DIR@ + "/"@ + name
}

/// The full path of the node `name` in the input directory.
pub fn input_path(name: &str) -> (out: String)
    ensures
        out@ == node_path(name@),
{
    let mut out: String = INPUT_DIR.to_owned();
    out.append("/");
    out.append(name);
    out
}

/// Text order, equality included.
pub open spec fn text_leq() -> spec_fn(Seq<char>, Seq<char>) -> bool {
    |a: Seq<char>, b: Seq<char>| !text_lt(b, a)
}

pub proof fn lemma_text_leq_total()
    ensures
        total_ordering(text_leq()),
{
    let leq = text_leq();
    assert forall|a: Seq<char>| #[trigger] leq(a, a) by {
        lemma_text_order(a, a, a);
    }
    assert forall|a: Seq<char>, b: Seq<char>| #[trigger] leq(a, b) && #[trigger] leq(
        b,
        a,
    ) implies a == b by {
        lemma_text_order(a, b, b);
    }
    assert forall|a: Seq<char>, b: Seq<char>, c: Seq<char>| #[trigger] leq(a, b)
        && #[trigger] leq(b, c) implies leq(a, c) by {
        lemma_text_order(a, b, c);
        lemma_text_order(c, a, b);
        lemma_text_order(b, c, a);
        lemma_text_order(c, b, a);
    }
    assert forall|a: Seq<char>, b: Seq<char>| #[trigger] leq(a, b) || #[trigger] leq(b, a) by {
        lemma_text_order(a, b, b);
    }
}

/// The paths of the event nodes among `names`.
pub open spec fn node_paths(names: Seq<Seq<char>>) -> Seq<Seq<char>> {
    names.filter(|n: Seq<char>| event_node(n)).map_values(|n: Seq<char>| node_path(n))
}

/// Puts `path` at its place in an ascending list.
fn insert_path(out: &mut Vec<String>, path: String)
    requires
        sorted_by(texts(old(out)@), text_leq()),
    ensures
        sorted_by(texts(final(out)@), text_leq()),
        texts(final(out)@).to_multiset() == texts(old(out)@).to_multiset().insert(path@),
{
    let ghost before = texts(out@);
    let ghost leq = text_leq();
    let ghost p = path@;
    let mut at: usize = out.len();
    while at > 0 && sorts_before(path.as_str(), out[at - 1].as_str())
        invariant
            texts(out@) == before,
            path@ == p,
            leq == text_leq(),
            at <= before.len() == out@.len(),
            forall|j: int| at <= j < before.len() ==> text_lt(p, #[trigger] before[j]),
        decreases at,
    {
        at -= 1;
    }
    out.insert(at, path);
    proof {
        assert(texts(out@) =~= before.insert(at as int, p));
        vstd::seq_lib::to_multiset_insert(before, at as int, p);
        lemma_text_leq_total();
        let after = texts(out@);
        assert forall|i: int, j: int| 0 <= i < j < after.len() implies #[trigger] leq(
            after[i],
            after[j],
        ) by {
            before.insert_ensures(at as int, p);
            assert(sorted_by(before, leq));
            if j < at {
                assert(leq(before[i], before[j]));
            } else if j == at {
                assert(leq(before[at - 1], p));
                if i < at - 1 {
                    assert(leq(before[i], before[at - 1]));
                }
            } else if i > at {
                assert(leq(before[i - 1], before[j - 1]));
            } else if i < at {
                assert(leq(before[i], before[j - 1]));
            } else {
                assert(text_lt(p, before[j - 1]));
                lemma_text_order(p, before[j - 1], p);
            }
        }
    }
}

/// The `eventN` nodes among the directory entries `names`, as full paths in
/// path order.
pub fn event_paths(names: &Vec<String>) -> (out: Vec<String>)
    ensures
        texts(out@) == node_paths(texts(names@)).sort_by(text_leq()),
{
    let ghost all = texts(names@);
    let ghost keep = |n: Seq<char>| event_node(n);
    let ghost full = |n: Seq<char>| node_path(n);
    let mut out: Vec<String> = Vec::new();
    let mut i: usize = 0;
    proof {
        assert(all.take(0) =~= Seq::<Seq<char>>::empty());
        assert(node_paths(all.take(0)) =~= Seq::<Seq<char>>::empty());
        assert(texts(out@) =~= Seq::<Seq<char>>::empty());
    }
    while i < names.len()
        invariant
            i <= names@.len() == all.len(),
            all == texts(names@),
            keep == (|n: Seq<char>| event_node(n)),
            full == (|n: Seq<char>| node_path(n)),
            sorted_by(texts(out@), text_leq()),
            texts(out@).to_multiset() == node_paths(all.take(i as int)).to_multiset(),
        decreases names@.len() - i,
    {
        let ghost seen = all.take(i as int);
        proof {
            assert(all.take(i + 1) =~= seen.push(all[i as int]));
            seen.lemma_filter_push(all[i as int], keep);
            seen.filter(keep).lemma_push_map_commute(full, all[i as int]);
            node_paths(seen).to_multiset_ensures();
        }
        if is_event_node(names[i].as_str()) {
            insert_path(&mut out, input_path(names[i].as_str()));
        }
        i += 1;
    }
    proof {
        assert(all.take(all.len() as int) =~= all);
        lemma_text_leq_total();
        node_paths(all).lemma_sort_by_ensures(text_leq());
        vstd::seq_lib::lemma_sorted_unique(
            texts(out@),
            node_paths(all).sort_by(text_leq()),
            text_leq(),
        );
    }
    out
}

/// The fingerprint depends on which codes a device supports, and on nothing
/// else: neither on their order, nor on the name, ids or port of the device.
pub proof fn lemma_fingerprint_stable(a: OpenDevice, b: OpenDevice)
    requires
        a.event_types@.to_multiset() == b.event_types@.to_multiset(),
        opt_codes(a.keys).to_multiset() == opt_codes(b.keys).to_multiset(),
        opt_codes(a.relative_axes).to_multiset() == opt_codes(b.relative_axes).to_multiset(),
        opt_codes(a.absolute_axes).to_multiset() == opt_codes(b.absolute_axes).to_multiset(),
    ensures
        fingerprint(a) == fingerprint(b),
{
    lemma_sort_agrees(a.event_types@, b.event_types@);
    lemma_sort_agrees(opt_codes(a.keys), opt_codes(b.keys));
    lemma_sort_agrees(opt_codes(a.relative_axes), opt_codes(b.relative_axes));
    lemma_sort_agrees(opt_codes(a.absolute_axes), opt_codes(b.absolute_axes));
}

proof fn lemma_sort_agrees(a: Seq<u16>, b: Seq<u16>)
    requires
        a.to_multiset() == b.to_multiset(),
    ensures
        sorted_codes(a) == sorted_codes(b),
{
    lemma_sorted_codes_ensures(a);
    lemma_sorted_codes(b, sorted_codes(a));
}

/// Codes below the section markers, as every evdev code is.
pub open spec fn below_markers(codes: Seq<u16>) -> bool {
    forall|i: int| 0 <= i < codes.len() ==> #[trigger] codes[i] < 0xE001
}

/// The section markers keep the sections apart: two hashed lists are equal only
/// if each of their four sections is.
pub proof fn lemma_sections_injective(
    a1: Seq<u16>,
    a2: Seq<u16>,
    a3: Seq<u16>,
    a4: Seq<u16>,
    b1: Seq<u16>,
    b2: Seq<u16>,
    b3: Seq<u16>,
    b4: Seq<u16>,
)
    requires
        below_markers(a1),
        below_markers(a2),
        below_markers(a3),
        below_markers(a4),
        below_markers(b1),
        below_markers(b2),
        below_markers(b3),
        below_markers(b4),
        sections(a1, a2, a3, a4) == sections(b1, b2, b3, b4),
    ensures
        a1 == b1,
        a2 == b2,
        a3 == b3,
        a4 == b4,
{
    let x = sections(a1, a2, a3, a4);
    let y = sections(b1, b2, b3, b4);
    let xa = a2 + seq![0xE003u16] + a3 + seq![0xE004u16] + a4;
    let ya = b2 + seq![0xE003u16] + b3 + seq![0xE004u16] + b4;
    assert(x =~= seq![0xE001u16] + (a1 + seq![0xE002u16] + xa));
    assert(y =~= seq![0xE001u16] + (b1 + seq![0xE002u16] + ya));
    assert(x.skip(1) =~= a1 + seq![0xE002u16] + xa);
    assert(y.skip(1) =~= b1 + seq![0xE002u16] + ya);
    lemma_split_at_marker(a1, 0xE002, xa, b1, ya);
    let xb = a3 + seq![0xE004u16] + a4;
    let yb = b3 + seq![0xE004u16] + b4;
    assert(xa =~= a2 + seq![0xE003u16] + xb);
    assert(ya =~= b2 + seq![0xE003u16] + yb);
    lemma_split_at_marker(a2, 0xE003, xb, b2, yb);
    lemma_split_at_marker(a3, 0xE004, a4, b3, b4);
}

proof fn lemma_split_at_marker(a: Seq<u16>, m: u16, ra: Seq<u16>, b: Seq<u16>, rb: Seq<u16>)
    requires
        below_markers(a),
        below_markers(b),
        m >= 0xE001,
        a + seq![m] + ra == b + seq![m] + rb,
    ensures
        a == b,
        ra == rb,
{
    let x = a + seq![m] + ra;
    let y = b + seq![m] + rb;
    assert(x.len() == a.len() + 1 + ra.len());
    assert(y.len() == b.len() + 1 + rb.len());
    assert(x[a.len() as int] == m);
    assert(y[b.len() as int] == m);
    if a.len() < b.len() {
        assert(y[a.len() as int] == b[a.len() as int]);
    }
    if b.len() < a.len() {
        assert(x[b.len() as int] == a[b.len() as int]);
    }
    assert(x.take(a.len() as int) =~= a);
    assert(y.take(b.len() as int) =~= b);
    assert(x.skip(a.len() as int + 1) =~= ra);
    assert(y.skip(b.len() as int + 1) =~= rb);
}

} // verus!
