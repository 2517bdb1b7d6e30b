//! Devices: what is read of them, and how they are recognised and registered.

use crate::behaviour::words::{fits, hex_number_of};
use crate::codes::{code_leq, has_code, lemma_sorted_codes_ensures, sort_codes, sorted_codes};
use crate::db::{
    after_sighting, allocated, candidate, labelled, least_free, lemma_first_match,
    lemma_match_index, match_index, new_slug, sighted_slug, slug_index, taken, Database,
    DeviceRecord, MatchOutcome, RecordView,
};
use crate::discovery::{
    capability_fingerprint, capability_list, capability_tag, classify_capabilities, event_node,
    event_paths, fnv, fnv_byte, is_event_node, node_path, node_paths, opt_codes, text_leq,
    DeviceIdentity, IdentityView, OpenDevice,
};
use crate::slug::slug;
use crate::text::{decimal, text_lt, texts};
use vstd::prelude::*;
use vstd::relations::sorted_by;
use vstd::string::*;

verus! {

/// Whether the record stands for the device: by serial where both have one, else
/// by ids where both have some, else by name; and never where both know their
/// capabilities and these differ.
pub open spec fn recognises(r: RecordView, id: IdentityView) -> bool {
    if r.unique_id is Some && id.unique_id is Some {
        r.unique_id == id.unique_id
    } else if r.capability_fingerprint is Some && id.capability_fingerprint.len() > 0
        && r.capability_fingerprint != Some(id.capability_fingerprint) {
        false
    } else if (r.vendor == 0 && r.product == 0) || (id.vendor == 0 && id.product == 0) {
        r.name == id.name
    } else {
        (r.bus, r.vendor, r.product, r.version) == (id.bus, id.vendor, id.product, id.version)
    }
}

proof fn lemma_recognises(r: RecordView, id: IdentityView)
    ensures
        r.describes(id) == recognises(r, id),
{
}

/// A device is recognised by its serial; without one on either side, by bus,
/// vendor, product and version; without those on either side, by its name. Nodes
/// with different capabilities are told apart.
pub proof fn law_matches(r: DeviceRecord, id: DeviceIdentity, yes: bool)
    requires
        call_ensures(DeviceRecord::matches, (&r, &id), yes),
    ensures
        match (r.unique_id, id.unique_id) {
            (Some(ours), Some(theirs)) => yes == (ours@ == theirs@),
            _ => {
                let other_node = r.capability_fingerprint matches Some(f) && f@
                    != id.capability_fingerprint@ && id.capability_fingerprint@.len() > 0;
                let by_ids = (r.vendor != 0 || r.product != 0) && (id.vendor != 0 || id.product
                    != 0);
                &&& other_node ==> !yes
                &&& !other_node && by_ids ==> yes == (r.bus == id.bus && r.vendor == id.vendor
                    && r.product == id.product && r.version == id.version)
                &&& !other_node && !by_ids ==> yes == (r.name@ == id.name@)
            },
        },
{
}

/// Neither the node nor the port of a device matters for recognising it.
pub proof fn law_port_is_ignored(
    r: RecordView,
    id: IdentityView,
    p: Seq<char>,
    q: Option<Seq<char>>,
)
    ensures
        r.describes(IdentityView { path: p, physical_path: q, ..id }) == r.describes(id),
        (RecordView { physical_path: q, ..r }).describes(id) == r.describes(id),
{
}

/// Neither the switch, nor the keys, nor the slug, nor the tag of a record matters
/// for recognising its device.
pub proof fn law_only_ids_matter(
    r: RecordView,
    id: IdentityView,
    s: Seq<char>,
    on: bool,
    keys: Seq<u16>,
    tag: Option<Seq<char>>,
    id_tag: Seq<char>,
    has_keys: bool,
)
    ensures
        (RecordView {
            slug: s,
            enabled: on,
            observed_keys: keys,
            capability_tag: tag,
            ..r
        }).describes(IdentityView { capability_tag: id_tag, has_keys, ..id }) == r.describes(id),
{
}

/// A device that was moved to another port, or came back as another node, is still
/// the same: its record is found, and none is added.
pub proof fn law_moved_device_is_known(
    devs: Seq<RecordView>,
    id: IdentityView,
    p: Seq<char>,
    q: Option<Seq<char>>,
)
    ensures
        ({
            let moved = IdentityView { path: p, physical_path: q, ..id };
            let once = after_sighting(devs, id);
            &&& match_index(once, moved) is Some
            &&& sighted_slug(once, moved) == sighted_slug(devs, id)
            &&& after_sighting(once, moved).len() == once.len()
            &&& forall|i: int|
                0 <= i < once.len() ==> {
                    &&& (#[trigger] after_sighting(once, moved)[i]).slug == once[i].slug
                    &&& after_sighting(once, moved)[i].enabled == once[i].enabled
                    &&& after_sighting(once, moved)[i].observed_keys == once[i].observed_keys
                }
        }),
{
    let moved = IdentityView { path: p, physical_path: q, ..id };
    let once = after_sighting(devs, id);
    crate::db::lemma_sighting_idempotent(devs, id);
    lemma_match_index(once, id);
    let i = match_index(once, id)->0;
    assert(once[i].describes(moved));
    assert forall|j: int| 0 <= j < i implies !(#[trigger] once[j]).describes(moved) by {
        law_port_is_ignored(once[j], id, p, q);
    }
    lemma_first_match(once, i, moved);
}

/// Whether `i` is the first of the records that stand for the device.
pub open spec fn first_recognised(devs: Seq<RecordView>, i: int, id: IdentityView) -> bool {
    &&& 0 <= i < devs.len()
    &&& recognises(devs[i], id)
    &&& forall|j: int| 0 <= j < i ==> !recognises(#[trigger] devs[j], id)
}

/// Whether a record is called `s`.
pub open spec fn used(devs: Seq<RecordView>, s: Seq<char>) -> bool {
    exists|i: int| 0 <= i < devs.len() && #[trigger] devs[i].slug == s
}

/// Whether `s` is the first free one of `base`, `base-2`, `base-3` and so on.
pub open spec fn first_free(devs: Seq<RecordView>, base: Seq<char>, s: Seq<char>) -> bool {
    &&& !used(devs, s)
    &&& s == base || exists|n: nat| numbered(devs, base, s, n)
}

/// Whether `s` is `base` with the number `n`, and everything before it is in use.
pub open spec fn numbered(devs: Seq<RecordView>, base: Seq<char>, s: Seq<char>, n: nat) -> bool {
    &&& n >= 2
    &&& s == base + seq!['-'] + decimal(n)
    &&& used(devs, base)
    &&& forall|k: nat| 2 <= k < n ==> used(devs, base + seq!['-'] + #[trigger] decimal(k))
}

proof fn lemma_allocated(devs: Seq<RecordView>, base: Seq<char>)
    requires
        exists|n: nat| least_free(devs, base, n),
    ensures
        first_free(devs, base, allocated(devs, base)),
{
    reveal_strlit("-");
    assert("-"@ =~= seq!['-']);
    let n = choose|n: nat| least_free(devs, base, n);
    let s = allocated(devs, base);
    assert(!taken(devs, s));
    assert(!used(devs, s));
    if n >= 2 {
        assert(taken(devs, candidate(base, 1)));
        assert forall|k: nat| 2 <= k < n implies used(
            devs,
            base + seq!['-'] + #[trigger] decimal(k),
        ) by {
            assert(taken(devs, candidate(base, k)));
        }
        assert(numbered(devs, base, s, n));
    }
}

/// The slug of a new device is that of its name, numbered from 2 where it is in
/// use.
pub proof fn law_allocate_slug(db: Database, base: &str, out: String)
    requires
        call_ensures(Database::allocate_slug, (&db, base), out),
    ensures
        first_free(db@, base@, out@),
{
    crate::db::lemma_allocation_exists(db@, base@, 1);
    lemma_allocated(db@, base@);
}

/// Whether `r` registers the device: everything it reports, switched off, and no
/// keys. What it reports as empty is not known.
pub open spec fn registers(r: RecordView, id: IdentityView) -> bool {
    &&& r.name == id.name
    &&& r.unique_id == id.unique_id
    &&& r.bus == id.bus
    &&& r.vendor == id.vendor
    &&& r.product == id.product
    &&& r.version == id.version
    &&& r.physical_path == id.physical_path
    &&& id.capability_fingerprint.len() == 0 ==> r.capability_fingerprint is None
    &&& id.capability_fingerprint.len() > 0 ==> r.capability_fingerprint == Some(
        id.capability_fingerprint,
    )
    &&& id.capability_tag.len() == 0 ==> r.capability_tag is None
    &&& id.capability_tag.len() > 0 ==> r.capability_tag == Some(id.capability_tag)
    &&& !r.enabled
    &&& r.observed_keys.len() == 0
}

/// The name a device is shown by.
pub open spec fn shown_name(name: Seq<char>, tag: Seq<char>) -> Seq<char> {
    if tag.len() == 0 {
        name
    } else {
        name + seq![' ', '('] + tag + seq![')']
    }
}

proof fn lemma_shown(name: Seq<char>, tag: Option<Seq<char>>)
    ensures
        labelled(name, tag) == match tag {
            Some(t) => name + seq![' ', '('] + t + seq![')'],
            None => name,
        },
{
    reveal_strlit(" (");
    reveal_strlit(")");
    assert(" ("@ =~= seq![' ', '(']);
    assert(")"@ =~= seq![')']);
}

pub proof fn lemma_registered(devs: Seq<RecordView>, id: IdentityView)
    ensures
        registers(crate::db::fresh_record(id, new_slug(devs, id)), id),
        first_free(devs, slug(shown_name(id.name, id.capability_tag)), new_slug(devs, id)),
{
    lemma_shown(id.name, crate::db::known(id.capability_tag));
    let base = slug(shown_name(id.name, id.capability_tag));
    crate::db::lemma_allocation_exists(devs, base, 1);
    lemma_allocated(devs, base);
}

/// A device is registered behind the known ones, under a free slug made of its
/// name and tag.
pub proof fn law_insert(db: &mut Database, id: DeviceIdentity, out: String)
    requires
        call_ensures(Database::insert, (db, &id), out),
    ensures
        ({
            let n = old(db)@.len();
            &&& final(db)@.len() == n + 1
            &&& forall|i: int| 0 <= i < n ==> #[trigger] final(db)@[i] == old(db)@[i]
            &&& final(db)@[n as int].slug == out@
            &&& registers(final(db)@[n as int], id@)
            &&& first_free(
                old(db)@,
                slug(shown_name(id.name@, id.capability_tag@)),
                out@,
            )
        }),
{
    lemma_registered(old(db)@, id@);
}

/// Whether `after` is `before` with what was not known of the device's port and
/// capabilities.
pub open spec fn fills(before: RecordView, after: RecordView, id: IdentityView) -> bool {
    &&& after.slug == before.slug
    &&& after.name == before.name
    &&& after.unique_id == before.unique_id
    &&& after.bus == before.bus
    &&& after.vendor == before.vendor
    &&& after.product == before.product
    &&& after.version == before.version
    &&& after.enabled == before.enabled
    &&& after.observed_keys == before.observed_keys
    &&& before.physical_path is Some ==> after.physical_path == before.physical_path
    &&& before.physical_path is None ==> after.physical_path == id.physical_path
    &&& before.capability_fingerprint is Some || id.capability_fingerprint.len() == 0
        ==> after.capability_fingerprint == before.capability_fingerprint
    &&& before.capability_fingerprint is None && id.capability_fingerprint.len() > 0
        ==> after.capability_fingerprint == Some(id.capability_fingerprint)
    &&& before.capability_tag is Some || id.capability_tag.len() == 0 ==> after.capability_tag
        == before.capability_tag
    &&& before.capability_tag is None && id.capability_tag.len() > 0 ==> after.capability_tag
        == Some(id.capability_tag)
}

/// A record is completed only where it lacked something.
pub proof fn law_backfill(r: &mut DeviceRecord, id: DeviceIdentity, changed: bool)
    requires
        call_ensures(DeviceRecord::backfill, (r, &id), changed),
    ensures
        fills(old(r)@, final(r)@, id@),
        changed == (final(r)@ != old(r)@),
{
}

proof fn lemma_first_recognised(devs: Seq<RecordView>, id: IdentityView)
    ensures
        match_index(devs, id) matches Some(i) ==> first_recognised(devs, i, id),
        match_index(devs, id) is None ==> forall|i: int|
            0 <= i < devs.len() ==> !recognises(#[trigger] devs[i], id),
{
    lemma_match_index(devs, id);
    assert forall|r: RecordView| #[trigger] recognises(r, id) == r.describes(id) by {
        lemma_recognises(r, id);
    }
    if match_index(devs, id) is None {
        assert forall|i: int| 0 <= i < devs.len() implies !recognises(#[trigger] devs[i], id) by {
            assert(!devs[i].describes(id));
        }
    } else {
        let i = match_index(devs, id)->0;
        assert forall|j: int| 0 <= j < i implies !recognises(#[trigger] devs[j], id) by {
            assert(!devs[j].describes(id));
        }
    }
}

/// The record of a device is the first that stands for it.
pub proof fn law_match_identity(db: Database, id: DeviceIdentity, res: Option<&DeviceRecord>)
    requires
        call_ensures(Database::match_identity, (&db, &id), res),
    ensures
        match res {
            Some(r) => exists|i: int| #[trigger] first_recognised(db@, i, id@) && db@[i] == r@,
            None => forall|i: int| 0 <= i < db@.len() ==> !recognises(#[trigger] db@[i], id@),
        },
{
    lemma_first_recognised(db@, id@);
    if let Some(i) = match_index(db@, id@) {
        assert(first_recognised(db@, i, id@));
    }
}

/// A known device keeps its record and slug, and its record is completed. A new
/// one is registered behind the others, switched off and under a free slug.
pub proof fn law_match_or_insert(db: &mut Database, id: DeviceIdentity, out: MatchOutcome)
    requires
        call_ensures(Database::match_or_insert, (db, &id), out),
    ensures
        ({
            let (before, after) = (old(db)@, final(db)@);
            match out {
                MatchOutcome::Matched { slug, backfilled } => exists|i: int|
                    {
                        &&& #[trigger] first_recognised(before, i, id@)
                        &&& slug@ == before[i].slug
                        &&& after.len() == before.len()
                        &&& fills(before[i], after[i], id@)
                        &&& backfilled == (after[i] != before[i])
                        &&& forall|j: int|
                            0 <= j < before.len() && j != i ==> #[trigger] after[j] == before[j]
                    },
                MatchOutcome::Inserted { slug: s } => {
                    let n = before.len() as int;
                    &&& forall|i: int| 0 <= i < n ==> !recognises(#[trigger] before[i], id@)
                    &&& after.len() == n + 1
                    &&& forall|i: int| 0 <= i < n ==> #[trigger] after[i] == before[i]
                    &&& after[n].slug == s@
                    &&& registers(after[n], id@)
                    &&& first_free(before, slug(shown_name(id.name@, id.capability_tag@)), s@)
                },
            }
        }),
{
    let (before, after) = (old(db)@, final(db)@);
    lemma_first_recognised(before, id@);
    lemma_registered(before, id@);
    if let Some(i) = match_index(before, id@) {
        assert(first_recognised(before, i, id@));
        if after[i] == before[i] {
            assert(after =~= before);
        }
    }
}

/// Devices that no record stands for are registered; others are not.
pub proof fn law_new_means_unknown(db: &mut Database, id: DeviceIdentity, out: MatchOutcome)
    requires
        call_ensures(Database::match_or_insert, (db, &id), out),
    ensures
        out is Inserted <==> forall|i: int|
            0 <= i < old(db)@.len() ==> !recognises(#[trigger] old(db)@[i], id@),
{
    lemma_first_recognised(old(db)@, id@);
    if let Some(i) = match_index(old(db)@, id@) {
        assert(recognises(old(db)@[i], id@));
    }
}

/// A device is shown by its name, with the tag in brackets once it is known.
pub proof fn law_display_name(r: DeviceRecord, out: String)
    requires
        call_ensures(DeviceRecord::display_name, (&r,), out),
    ensures
        match r.capability_tag {
            Some(t) => out@ == r.name@ + seq![' ', '('] + t@ + seq![')'],
            None => out@ == r.name@,
        },
{
    lemma_shown(r.name@, r@.capability_tag);
}

/// A key is listed once, in ascending order, and nothing else of the record
/// changes.
pub proof fn law_record_observed_key(r: &mut DeviceRecord, code: u16, added: bool)
    requires
        call_ensures(DeviceRecord::record_observed_key, (r, code), added),
    ensures
        ({
            let (before, after) = (old(r)@, final(r)@);
            &&& added == !before.observed_keys.contains(code)
            &&& !added ==> after == before
            &&& added ==> after.observed_keys.to_multiset()
                == before.observed_keys.to_multiset().insert(code)
            &&& added ==> forall|i: int, j: int|
                0 <= i < j < after.observed_keys.len() ==> #[trigger] after.observed_keys[i]
                    <= #[trigger] after.observed_keys[j]
            &&& after == (RecordView { observed_keys: after.observed_keys, ..before })
        }),
{
    let keys = old(r)@.observed_keys;
    let longer = keys.push(code);
    lemma_sorted_codes_ensures(longer);
    keys.to_multiset_ensures();
    if added {
        let sorted = final(r)@.observed_keys;
        assert forall|i: int, j: int| 0 <= i < j < sorted.len() implies #[trigger] sorted[i]
            <= #[trigger] sorted[j] by {
            assert((code_leq())(sorted[i], sorted[j]));
        }
    }
}

/// A record is found by its slug: the first that has it.
pub proof fn law_find(db: Database, s: &str, res: Option<&DeviceRecord>)
    requires
        call_ensures(Database::find, (&db, s), res),
    ensures
        match res {
            Some(r) => exists|i: int|
                {
                    &&& 0 <= i < db@.len()
                    &&& #[trigger] db@[i] == r@
                    &&& r.slug@ == s@
                    &&& forall|j: int| 0 <= j < i ==> (#[trigger] db@[j]).slug != s@
                },
            None => forall|i: int| 0 <= i < db@.len() ==> (#[trigger] db@[i]).slug != s@,
        },
{
    crate::db::lemma_lookup_taken(db@, s@);
    if let Some(i) = slug_index(db@, s@) {
        assert(crate::db::first_at(db@, i, s@));
        assert(db@[i].slug == s@);
    } else {
        assert forall|i: int| 0 <= i < db@.len() implies (#[trigger] db@[i]).slug != s@ by {
            if db@[i].slug == s@ {
                assert(taken(db@, s@));
            }
        }
    }
}

/// Removing takes away the records of that slug, and no others.
pub proof fn law_remove(db: &mut Database, s: &str, existed: bool)
    requires
        call_ensures(Database::remove, (db, s), existed),
    ensures
        final(db)@ == old(db)@.filter(|r: RecordView| r.slug != s@),
        existed == used(old(db)@, s@),
{
    assert(taken(old(db)@, s@) == used(old(db)@, s@)) by {
        if used(old(db)@, s@) {
            let i = choose|i: int| 0 <= i < old(db)@.len() && #[trigger] old(db)@[i].slug == s@;
            assert(old(db)@[i].slug == s@);
        }
    }
    assert(final(db)@ == crate::db::without(old(db)@, s@));
}

/// A database starts empty.
pub proof fn law_empty_database(out: Database)
    requires
        call_ensures(Database::default, (), out),
    ensures
        out@.len() == 0,
{
}

/// Codes are sorted, and looked for, by their numbers.
pub proof fn law_codes(codes: Vec<u16>, sorted: Vec<u16>, code: u16, yes: bool)
    requires
        call_ensures(sort_codes, (&codes,), sorted),
        call_ensures(has_code, (&codes, code), yes),
    ensures
        ordered(sorted@, codes@),
        yes <==> exists|i: int| 0 <= i < codes@.len() && #[trigger] codes@[i] == code,
{
    lemma_ordered(codes@);
}

/// What is read of an open device: everything it reports, under its own name.
/// Texts that are empty are not known, and a device without a name is `unknown`.
pub proof fn law_identity(path: String, device: OpenDevice, out: DeviceIdentity)
    requires
        call_ensures(DeviceIdentity::from_open_device, (path, &device), out),
    ensures
        out.path@ == path@,
        match device.name {
            Some(n) => out.name@ == n@,
            None => out.name@ == seq!['u', 'n', 'k', 'n', 'o', 'w', 'n'],
        },
        match device.unique_name {
            Some(u) if u@.len() > 0 => out.unique_id matches Some(v) && v@ == u@,
            _ => out.unique_id is None,
        },
        match device.physical_path {
            Some(p) if p@.len() > 0 => out.physical_path matches Some(q) && q@ == p@,
            _ => out.physical_path is None,
        },
        out.bus == device.bus,
        out.vendor == device.vendor,
        out.product == device.product,
        out.version == device.version,
        out.has_keys == device.event_types@.contains(1),
{
    reveal_strlit("unknown");
    assert(out@.unique_id == device.identity(path@).unique_id);
    assert(out@.physical_path == device.identity(path@).physical_path);
}

/// The capabilities in an identity are those of the device.
pub proof fn law_identity_capabilities(
    path: String,
    device: OpenDevice,
    out: DeviceIdentity,
    fingerprint: String,
    tag: &'static str,
)
    requires
        call_ensures(DeviceIdentity::from_open_device, (path, &device), out),
        call_ensures(capability_fingerprint, (&device,), fingerprint),
        call_ensures(capability_tag, (&device,), tag),
    ensures
        out.capability_fingerprint@ == fingerprint@,
        out.capability_tag@ == tag@,
{
}

/// A device with the letter A is a keyboard, else one with the 0 of the number pad
/// a number pad, else one that moves in both directions a mouse.
pub proof fn law_tag(device: OpenDevice, out: &'static str)
    requires
        call_ensures(capability_tag, (&device,), out),
    ensures
        ({
            let keys = match device.keys {
                Some(k) => k@,
                None => Seq::empty(),
            };
            let axes = match device.relative_axes {
                Some(a) => a@,
                None => Seq::empty(),
            };
            let (letters, pad) = (keys.contains(30), keys.contains(82));
            let moves = axes.contains(0) && axes.contains(1);
            &&& letters ==> out@ == "kbd"@
            &&& !letters && pad ==> out@ == "numpad"@
            &&& !letters && !pad && moves ==> out@ == "mouse"@
            &&& !letters && !pad && !moves ==> out@ == "other"@
        }),
{
}

/// The same on lists of codes.
pub proof fn law_classify(keys: Option<&Vec<u16>>, axes: Option<&Vec<u16>>, out: &'static str)
    requires
        call_ensures(classify_capabilities, (keys, axes), out),
    ensures
        ({
            let letters = keys matches Some(k) && k@.contains(30);
            let pad = keys matches Some(k) && k@.contains(82);
            let moves = axes matches Some(a) && a@.contains(0) && a@.contains(1);
            &&& letters ==> out@ == "kbd"@
            &&& !letters && pad ==> out@ == "numpad"@
            &&& !letters && !pad && moves ==> out@ == "mouse"@
            &&& !letters && !pad && !moves ==> out@ == "other"@
        }),
{
}

/// The 64-bit FNV-1a hash of some bytes.
pub open spec fn fnv1a(bytes: Seq<u8>) -> u64
    decreases bytes.len(),
{
    if bytes.len() == 0 {
        14695981039346656037
    } else {
        (fnv1a(bytes.drop_last()) ^ (bytes.last() as u64)).wrapping_mul(1099511628211)
    }
}

/// Codes as bytes, the low byte first.
pub open spec fn little_endian(codes: Seq<u16>) -> Seq<u8>
    decreases codes.len(),
{
    if codes.len() == 0 {
        Seq::empty()
    } else {
        little_endian(codes.drop_last()).push((codes.last() % 256) as u8).push(
            (codes.last() / 256) as u8,
        )
    }
}

proof fn lemma_fnv1a(codes: Seq<u16>)
    ensures
        fnv(14695981039346656037, codes) == fnv1a(little_endian(codes)),
    decreases codes.len(),
{
    if codes.len() > 0 {
        lemma_fnv1a(codes.drop_last());
        let low = little_endian(codes.drop_last()).push((codes.last() % 256) as u8);
        let all = little_endian(codes);
        assert(all.drop_last() =~= low);
        assert(low.drop_last() =~= little_endian(codes.drop_last()));
        let h = fnv1a(little_endian(codes.drop_last()));
        assert(fnv1a(low) == fnv_byte(h, (codes.last() % 256) as u8));
        assert(fnv1a(all) == fnv_byte(fnv1a(low), (codes.last() / 256) as u8));
    }
}

/// Whether `sorted` holds the same codes in ascending order.
pub open spec fn ordered(sorted: Seq<u16>, codes: Seq<u16>) -> bool {
    &&& sorted.to_multiset() == codes.to_multiset()
    &&& forall|i: int, j: int|
        0 <= i < j < sorted.len() ==> #[trigger] sorted[i] <= #[trigger] sorted[j]
}

proof fn lemma_ordered(codes: Seq<u16>)
    ensures
        ordered(sorted_codes(codes), codes),
{
    lemma_sorted_codes_ensures(codes);
    let sorted = sorted_codes(codes);
    assert forall|i: int, j: int| 0 <= i < j < sorted.len() implies #[trigger] sorted[i]
        <= #[trigger] sorted[j] by {
        assert((code_leq())(sorted[i], sorted[j]));
    }
}

/// What is hashed of the four kinds of codes.
pub open spec fn marked(
    types: Seq<u16>,
    keys: Seq<u16>,
    rels: Seq<u16>,
    abss: Seq<u16>,
) -> Seq<u16> {
    seq![57345u16] + types + seq![57346u16] + keys + seq![57347u16] + rels + seq![57348u16] + abss
}

/// The fingerprint is the FNV-1a hash of event types, keys, relative and absolute
/// axes, each sorted and behind a marker of its own, in 16 hexadecimal digits.
pub proof fn law_fingerprint(
    device: OpenDevice,
    out: String,
    types: Seq<u16>,
    keys: Seq<u16>,
    rels: Seq<u16>,
    abss: Seq<u16>,
)
    requires
        call_ensures(capability_fingerprint, (&device,), out),
        ordered(types, device.event_types@),
        ordered(
            keys,
            match device.keys {
                Some(c) => c@,
                None => Seq::empty(),
            },
        ),
        ordered(
            rels,
            match device.relative_axes {
                Some(c) => c@,
                None => Seq::empty(),
            },
        ),
        ordered(
            abss,
            match device.absolute_axes {
                Some(c) => c@,
                None => Seq::empty(),
            },
        ),
    ensures
        out@.len() == 16,
        hex_number_of(out@) == fnv1a(little_endian(marked(types, keys, rels, abss))),
{
    lemma_as_sorted(types, device.event_types@);
    lemma_as_sorted(keys, opt_codes(device.keys));
    lemma_as_sorted(rels, opt_codes(device.relative_axes));
    lemma_as_sorted(abss, opt_codes(device.absolute_axes));
    let list = capability_list(device);
    assert(list == marked(types, keys, rels, abss));
    lemma_fnv1a(list);
    let hash = fnv1a(little_endian(list));
    lemma_word_fits(hash);
    crate::behaviour::words::lemma_hex(hash as nat, 16);
}

proof fn lemma_as_sorted(sorted: Seq<u16>, codes: Seq<u16>)
    requires
        ordered(sorted, codes),
    ensures
        sorted == sorted_codes(codes),
{
    let leq = code_leq();
    assert forall|i: int, j: int| 0 <= i < j < sorted.len() implies #[trigger] leq(
        sorted[i],
        sorted[j],
    ) by {
        assert(sorted[i] <= sorted[j]);
    }
    assert(sorted_by(sorted, leq));
    crate::codes::lemma_sorted_codes(codes, sorted);
}

proof fn lemma_word_fits(n: u64)
    ensures
        fits(n as int, 16),
{
    reveal_with_fuel(fits, 17);
}

/// An event node is called `event` and a number.
pub proof fn law_is_event_node(name: &str, yes: bool)
    requires
        call_ensures(is_event_node, (name,), yes),
    ensures
        yes == numbered_event(name@),
{
    lemma_event_node(name@);
}

/// `event` with at least one digit behind it, and nothing else.
pub open spec fn numbered_event(name: Seq<char>) -> bool {
    &&& name.len() >= 6
    &&& name[0] == 'e' && name[1] == 'v' && name[2] == 'e' && name[3] == 'n' && name[4] == 't'
    &&& forall|i: int| 5 <= i < name.len() ==> '0' <= #[trigger] name[i] && name[i] <= '9'
}

pub proof fn lemma_event_node(name: Seq<char>)
    ensures
        event_node(name) == numbered_event(name),
{
    reveal_strlit("event");
    assert("event"@ =~= seq!['e', 'v', 'e', 'n', 't']);
    if name.len() >= 6 {
        let head = name.take(5);
        assert(head[0] == name[0] && head[1] == name[1] && head[2] == name[2] && head[3]
            == name[3] && head[4] == name[4]);
        if numbered_event(name) {
            assert(head =~= "event"@);
            assert forall|i: int| 5 <= i < name.len() implies crate::discovery::is_digit(
                #[trigger] name[i],
            ) by {}
        }
    }
    if event_node(name) {
        assert(name.take(5) == "event"@);
        assert forall|i: int| 5 <= i < name.len() implies '0' <= #[trigger] name[i] && name[i]
            <= '9' by {
            assert(crate::discovery::is_digit(name[i]));
        }
    }
}

/// The event nodes of the input directory, and no others, in the order of their
/// paths.
pub proof fn law_event_paths(names: Vec<String>, out: Vec<String>)
    requires
        call_ensures(event_paths, (&names,), out),
    ensures
        texts(out@).to_multiset() == texts(names@).filter(
            |n: Seq<char>| numbered_event(n),
        ).map_values(|n: Seq<char>| "/dev/input/"@ + n).to_multiset(),
        forall|i: int, j: int|
            0 <= i < j < out@.len() ==> !text_lt((#[trigger] out@[j])@, (#[trigger] out@[i])@),
{
    let all = texts(names@);
    let leq = text_leq();
    assert forall|n: Seq<char>| #[trigger] event_node(n) == numbered_event(n) by {
        lemma_event_node(n);
    }
    assert((|n: Seq<char>| event_node(n)) =~= (|n: Seq<char>| numbered_event(n)));
    lemma_input_dir();
    assert forall|n: Seq<char>| #[trigger] node_path(n) == "/dev/input/"@ + n by {
        assert(node_path(n) =~= "/dev/input/"@ + n);
    }
    assert((|n: Seq<char>| node_path(n)) =~= (|n: Seq<char>| "/dev/input/"@ + n));
    crate::discovery::lemma_text_leq_total();
    node_paths(all).lemma_sort_by_ensures(leq);
    let sorted = texts(out@);
    assert forall|i: int, j: int| 0 <= i < j < out@.len() implies !text_lt(
        (#[trigger] out@[j])@,
        (#[trigger] out@[i])@,
    ) by {
        assert(sorted[i] == out@[i]@ && sorted[j] == out@[j]@);
        assert(leq(sorted[i], sorted[j]));
    }
}

/// The directory of the device nodes, with its separator.
pub proof fn lemma_input_dir()
    ensures
        crate::discovery::INPUT_DIR@ + "/"@ == "/dev/input/"@,
{
    reveal_strlit("/dev/input");
    reveal_strlit("/dev/input/");
    reveal_strlit("/");
    assert(crate::discovery::INPUT_DIR@ + "/"@ =~= "/dev/input/"@);
}

} // verus!
