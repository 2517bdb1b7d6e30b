//! The device database: every device ever seen, by slug.

use crate::codes::{has_code, sort_codes, sorted_codes};
use crate::discovery::{DeviceIdentity, IdentityView};
use crate::slug::{slug, slugify};
use crate::text::{decimal, decimal_text, lemma_decimal_injective, opt_text, text_eq};
use vstd::prelude::*;
use vstd::string::*;

verus! {

/// One device the daemon has ever seen. Every identifier we extracted
/// from evdev is stored; the *match* against a fresh `DeviceIdentity`
/// is computed on the fly, preferring the most precise signal both
/// sides supply (unique_id, then bus/vendor/product/version, then name).
#[derive(Debug, PartialEq, Eq)]
pub struct DeviceRecord {
    /// Stable internal id. Used as the MQTT topic slug and the suffix
    /// of the HA device identifier. Never changes after first
    /// assignment.
    pub slug: String,
    pub name: String,
    pub unique_id: Option<String>,
    pub bus: u16,
    pub vendor: u16,
    pub product: u16,
    pub version: u16,
    pub physical_path: Option<String>,
    /// Absent in records written before fingerprints were kept; filled in
    /// at the next sighting.
    pub capability_fingerprint: Option<String>,
    pub capability_tag: Option<String>,
    pub enabled: bool,
    /// u16 evdev key codes. Stored as integers rather than symbolic
    /// names to keep the file small.
    pub observed_keys: Vec<u16>,
}

/// The values in a [`DeviceRecord`].
pub struct RecordView {
    pub slug: Seq<char>,
    pub name: Seq<char>,
    pub unique_id: Option<Seq<char>>,
    pub bus: u16,
    pub vendor: u16,
    pub product: u16,
    pub version: u16,
    pub physical_path: Option<Seq<char>>,
    pub capability_fingerprint: Option<Seq<char>>,
    pub capability_tag: Option<Seq<char>>,
    pub enabled: bool,
    pub observed_keys: Seq<u16>,
}

impl View for DeviceRecord {
    type V = RecordView;

    open spec fn view(&self) -> RecordView {
        RecordView {
            slug: self.slug@,
            name: self.name@,
            unique_id: opt_text(self.unique_id),
            bus: self.bus,
            vendor: self.vendor,
            product: self.product,
            version: self.version,
            physical_path: opt_text(self.physical_path),
            capability_fingerprint: opt_text(self.capability_fingerprint),
            capability_tag: opt_text(self.capability_tag),
            enabled: self.enabled,
            observed_keys: self.observed_keys@,
        }
    }
}

impl Clone for DeviceRecord {
    fn clone(&self) -> (out: Self)
        ensures
            out@ == self@,
    {
        let observed_keys = self.observed_keys.clone();
        assert(observed_keys@ =~= self.observed_keys@);
        DeviceRecord {
            slug: self.slug.clone(),
            name: self.name.clone(),
            unique_id: self.unique_id.clone(),
            bus: self.bus,
            vendor: self.vendor,
            product: self.product,
            version: self.version,
            physical_path: self.physical_path.clone(),
            capability_fingerprint: self.capability_fingerprint.clone(),
            capability_tag: self.capability_tag.clone(),
            enabled: self.enabled,
            observed_keys,
        }
    }
}

/// A device name with its tag in brackets, if it has one.
pub open spec fn labelled(name: Seq<char>, tag: Option<Seq<char>>) -> Seq<char> {
    match tag {
        Some(t) => name + " ("@ + t + ")"@,
        None => name,
    }
}

/// An empty text read as an absent one.
pub open spec fn known(s: Seq<char>) -> Option<Seq<char>> {
    if s.len() == 0 {
        None
    } else {
        Some(s)
    }
}

impl RecordView {
    /// Whether the fingerprints of record and device agree, where both are known.
    pub open spec fn same_capabilities(self, id: IdentityView) -> bool {
        match (self.capability_fingerprint, known(id.capability_fingerprint)) {
            (Some(ours), Some(theirs)) => ours == theirs,
            _ => true,
        }
    }

    /// Whether this record describes the device `id`.
    pub open spec fn describes(self, id: IdentityView) -> bool {
        match (self.unique_id, id.unique_id) {
            (Some(ours), Some(theirs)) => ours == theirs,
            _ => self.same_capabilities(id) && if (self.vendor != 0 || self.product != 0) && (id.vendor
                != 0 || id.product != 0) {
                &&& self.bus == id.bus
                &&& self.vendor == id.vendor
                &&& self.product == id.product
                &&& self.version == id.version
            } else {
                self.name == id.name
            },
        }
    }

    pub open spec fn label(self) -> Seq<char> {
        labelled(self.name, self.capability_tag)
    }

    /// This record with `code` among its observed keys.
    pub open spec fn with_key(self, code: u16) -> RecordView {
        if self.observed_keys.contains(code) {
            self
        } else {
            RecordView { observed_keys: sorted_codes(self.observed_keys.push(code)), ..self }
        }
    }

    pub open spec fn with_enabled(self, on: bool) -> RecordView {
        RecordView { enabled: on, ..self }
    }

    /// This record with what it lacked of `id`'s port and capabilities.
    pub open spec fn completed(self, id: IdentityView) -> RecordView {
        RecordView {
            physical_path: match self.physical_path {
                Some(p) => Some(p),
                None => id.physical_path,
            },
            capability_fingerprint: match self.capability_fingerprint {
                Some(f) => Some(f),
                None => known(id.capability_fingerprint),
            },
            capability_tag: match self.capability_tag {
                Some(t) => Some(t),
                None => known(id.capability_tag),
            },
            ..self
        }
    }
}

/// The record of a device seen for the first time.
pub open spec fn fresh_record(id: IdentityView, slug: Seq<char>) -> RecordView {
    RecordView {
        slug,
        name: id.name,
        unique_id: id.unique_id,
        bus: id.bus,
        vendor: id.vendor,
        product: id.product,
        version: id.version,
        physical_path: id.physical_path,
        capability_fingerprint: known(id.capability_fingerprint),
        capability_tag: known(id.capability_tag),
        enabled: false,
        observed_keys: Seq::empty(),
    }
}

fn known_text(s: &str) -> (out: Option<String>)
    ensures
        opt_text(out) == known(s@),
{
    if s.is_empty() {
        None
    } else {
        Some(s.to_owned())
    }
}

impl DeviceRecord {
    /// Does this stored record describe the device behind `id`?
    ///
    /// Prefers the most precise signal both sides have. The capability
    /// fingerprint, where both sides know it, separates the nodes of one
    /// receiver that agree in everything else.
    pub fn matches(&self, id: &DeviceIdentity) -> (yes: bool)
        ensures
            yes == self@.describes(id@),
    {
        if let (Some(ours), Some(theirs)) = (&self.unique_id, &id.unique_id) {
            return text_eq(ours.as_str(), theirs.as_str());
        }
        if let Some(ours) = &self.capability_fingerprint {
            if !id.capability_fingerprint.as_str().is_empty() && !text_eq(
                ours.as_str(),
                id.capability_fingerprint.as_str(),
            ) {
                return false;
            }
        }
        if (self.vendor != 0 || self.product != 0) && (id.vendor != 0 || id.product != 0) {
            return self.bus == id.bus && self.vendor == id.vendor && self.product == id.product
                && self.version == id.version;
        }
        text_eq(self.name.as_str(), id.name.as_str())
    }

    /// The name shown to users: the device name, with the capability tag
    /// behind it once that is known.
    pub fn display_name(&self) -> (out: String)
        ensures
            out@ == self@.label(),
    {
        let mut out: String = self.name.clone();
        if let Some(t) = &self.capability_tag {
            out.append(" (");
            out.append(t.as_str());
            out.append(")");
        }
        out
    }

    /// True iff `code` was newly added. Caller can use this to decide
    /// whether to republish discovery.
    pub fn record_observed_key(&mut self, code: u16) -> (added: bool)
        ensures
            final(self)@ == old(self)@.with_key(code),
            added == !old(self)@.observed_keys.contains(code),
    {
        if has_code(&self.observed_keys, code) {
            return false;
        }
        self.observed_keys.push(code);
        self.observed_keys = sort_codes(&self.observed_keys);
        true
    }

    /// Fills in what this record lacks of `id`'s port and capabilities.
    /// True iff anything was missing.
    pub fn backfill(&mut self, id: &DeviceIdentity) -> (changed: bool)
        ensures
            final(self)@ == old(self)@.completed(id@),
            changed == (final(self)@ != old(self)@),
    {
        let mut changed: bool = false;
        if self.physical_path.is_none() && id.physical_path.is_some() {
            self.physical_path = id.physical_path.clone();
            changed = true;
        }
        if self.capability_fingerprint.is_none() {
            let fp = known_text(id.capability_fingerprint.as_str());
            if fp.is_some() {
                self.capability_fingerprint = fp;
                changed = true;
            }
        }
        if self.capability_tag.is_none() {
            let tag = known_text(id.capability_tag);
            if tag.is_some() {
                self.capability_tag = tag;
                changed = true;
            }
        }
        changed
    }
}

#[derive(Debug)]
pub struct Database {
    pub devices: Vec<DeviceRecord>,
}

/// The values in a list of records.
pub open spec fn records(devices: Seq<DeviceRecord>) -> Seq<RecordView> {
    devices.map_values(|r: DeviceRecord| r@)
}

impl View for Database {
    type V = Seq<RecordView>;

    open spec fn view(&self) -> Seq<RecordView> {
        records(self.devices@)
    }
}

impl Default for Database {
    fn default() -> (out: Self)
        ensures
            out@ == Seq::<RecordView>::empty(),
    {
        let out = Database { devices: Vec::new() };
        assert(out@ =~= Seq::<RecordView>::empty());
        out
    }
}

impl Clone for Database {
    fn clone(&self) -> (out: Self)
        ensures
            out@ == self@,
    {
        let mut devices: Vec<DeviceRecord> = Vec::new();
        let mut i: usize = 0;
        while i < self.devices.len()
            invariant
                i <= self.devices@.len(),
                devices@.len() == i,
                forall|j: int| 0 <= j < i ==> (#[trigger] devices@[j])@ == self.devices@[j]@,
            decreases self.devices@.len() - i,
        {
            devices.push(self.devices[i].clone());
            i += 1;
        }
        assert(records(devices@) =~= records(self.devices@));
        Database { devices }
    }
}

/// What a sighting did to the database.
#[derive(Debug, PartialEq, Eq)]
pub enum MatchOutcome {
    /// A known device. `backfilled` tells whether its record gained
    /// something from the sighting.
    Matched { slug: String, backfilled: bool },
    /// A device seen for the first time.
    Inserted { slug: String },
}

/// Whether `i` is the first record called `slug`.
pub open spec fn first_at(devs: Seq<RecordView>, i: int, slug: Seq<char>) -> bool {
    &&& 0 <= i < devs.len()
    &&& devs[i].slug == slug
    &&& forall|j: int| 0 <= j < i ==> (#[trigger] devs[j]).slug != slug
}

/// The position of the first record called `slug`.
pub open spec fn slug_index(devs: Seq<RecordView>, slug: Seq<char>) -> Option<int> {
    if exists|i: int| first_at(devs, i, slug) {
        Some(choose|i: int| first_at(devs, i, slug))
    } else {
        None
    }
}

/// The first record called `slug`.
pub open spec fn lookup(devs: Seq<RecordView>, slug: Seq<char>) -> Option<RecordView> {
    match slug_index(devs, slug) {
        Some(i) => Some(devs[i]),
        None => None,
    }
}

/// Whether a record is called `slug`.
pub open spec fn taken(devs: Seq<RecordView>, slug: Seq<char>) -> bool {
    exists|i: int| 0 <= i < devs.len() && (#[trigger] devs[i]).slug == slug
}

/// Whether `i` is the first record that describes `id`.
pub open spec fn first_match(devs: Seq<RecordView>, i: int, id: IdentityView) -> bool {
    &&& 0 <= i < devs.len()
    &&& devs[i].describes(id)
    &&& forall|j: int| 0 <= j < i ==> !(#[trigger] devs[j]).describes(id)
}

/// The position of the first record that describes `id`.
pub open spec fn match_index(devs: Seq<RecordView>, id: IdentityView) -> Option<int> {
    if exists|i: int| first_match(devs, i, id) {
        Some(choose|i: int| first_match(devs, i, id))
    } else {
        None
    }
}

/// The first record of a slug is where the slug is looked up.
pub proof fn lemma_first_at(devs: Seq<RecordView>, i: int, slug: Seq<char>)
    requires
        first_at(devs, i, slug),
    ensures
        slug_index(devs, slug) == Some(i),
{
    let k = choose|k: int| first_at(devs, k, slug);
    assert(first_at(devs, k, slug));
    if k < i {
        assert(devs[k].slug != slug);
    }
    if i < k {
        assert(devs[i].slug != slug);
    }
}

/// The first record that describes a device is the one it is matched to.
pub proof fn lemma_first_match(devs: Seq<RecordView>, i: int, id: IdentityView)
    requires
        first_match(devs, i, id),
    ensures
        match_index(devs, id) == Some(i),
{
    let k = choose|k: int| first_match(devs, k, id);
    assert(first_match(devs, k, id));
    if k < i {
        assert(!devs[k].describes(id));
    }
    if i < k {
        assert(!devs[i].describes(id));
    }
}

/// A slug can be looked up exactly when it is taken.
pub proof fn lemma_lookup_taken(devs: Seq<RecordView>, slug: Seq<char>)
    ensures
        slug_index(devs, slug) is Some <==> taken(devs, slug),
        slug_index(devs, slug) matches Some(i) ==> first_at(devs, i, slug),
{
    if taken(devs, slug) {
        let i = choose|i: int| 0 <= i < devs.len() && (#[trigger] devs[i]).slug == slug;
        lemma_first_exists(devs, i, slug);
    }
    if slug_index(devs, slug) is Some {
        let i = choose|i: int| first_at(devs, i, slug);
        assert(first_at(devs, i, slug));
        assert(devs[i].slug == slug);
    }
}

proof fn lemma_first_exists(devs: Seq<RecordView>, i: int, slug: Seq<char>)
    requires
        0 <= i < devs.len(),
        devs[i].slug == slug,
    ensures
        exists|k: int| first_at(devs, k, slug),
    decreases i,
{
    if first_at(devs, i, slug) {
    } else {
        let j = choose|j: int| 0 <= j < i && (#[trigger] devs[j]).slug == slug;
        lemma_first_exists(devs, j, slug);
    }
}

/// The `n`th slug tried for `base`: the bare one, then `-2`, `-3` and so on.
pub open spec fn candidate(base: Seq<char>, n: nat) -> Seq<char> {
    if n <= 1 {
        base
    } else {
        base + "-"@ + decimal(n)
    }
}

/// Whether the `n`th candidate is the first free one.
pub open spec fn least_free(devs: Seq<RecordView>, base: Seq<char>, n: nat) -> bool {
    &&& n >= 1
    &&& !taken(devs, candidate(base, n))
    &&& forall|k: nat| 1 <= k < n ==> taken(devs, #[trigger] candidate(base, k))
}

/// The first free candidate for `base`.
pub open spec fn allocated(devs: Seq<RecordView>, base: Seq<char>) -> Seq<char> {
    candidate(base, choose|n: nat| least_free(devs, base, n))
}

/// The slug a new device `id` gets.
pub open spec fn new_slug(devs: Seq<RecordView>, id: IdentityView) -> Seq<char> {
    allocated(devs, slug(labelled(id.name, known(id.capability_tag))))
}

proof fn lemma_candidates_differ(base: Seq<char>, a: nat, b: nat)
    requires
        1 <= a,
        1 <= b,
        candidate(base, a) == candidate(base, b),
    ensures
        a == b,
{
    reveal_strlit("-");
    let head = base + "-"@;
    if a >= 2 && b >= 2 {
        assert(candidate(base, a).skip(head.len() as int) =~= decimal(a));
        assert(candidate(base, b).skip(head.len() as int) =~= decimal(b));
        lemma_decimal_injective(a, b);
    } else if a >= 2 {
        assert(candidate(base, a).len() > base.len());
    } else if b >= 2 {
        assert(candidate(base, b).len() > base.len());
    }
}

/// The first `m` candidates.
spec fn candidates(base: Seq<char>, m: nat) -> Set<Seq<char>>
    decreases m,
{
    if m == 0 {
        Set::empty()
    } else {
        candidates(base, (m - 1) as nat).insert(candidate(base, m))
    }
}

proof fn lemma_candidates(base: Seq<char>, m: nat)
    ensures
        candidates(base, m).finite(),
        candidates(base, m).len() == m,
        forall|s: Seq<char>| #[trigger]
            candidates(base, m).contains(s) ==> exists|k: nat|
                1 <= k <= m && s == #[trigger] candidate(base, k),
    decreases m,
{
    if m > 0 {
        let before = candidates(base, (m - 1) as nat);
        lemma_candidates(base, (m - 1) as nat);
        if before.contains(candidate(base, m)) {
            let k = choose|k: nat|
                1 <= k <= (m - 1) as nat && candidate(base, m) == #[trigger] candidate(base, k);
            lemma_candidates_differ(base, m, k);
        }
        assert forall|s: Seq<char>| #[trigger] candidates(base, m).contains(s) implies exists|
            k: nat,
        | 1 <= k <= m && s == #[trigger] candidate(base, k) by {
            if s == candidate(base, m) {
            } else {
                assert(before.contains(s));
                let k = choose|k: nat| 1 <= k <= (m - 1) as nat && s == #[trigger] candidate(base, k);
                assert(1 <= k <= m && s == candidate(base, k));
            }
        }
    }
}

/// Among one more candidates than there are records, one is free.
proof fn lemma_free_candidate(devs: Seq<RecordView>, base: Seq<char>, m: nat)
    requires
        forall|k: nat| 1 <= k <= m ==> taken(devs, #[trigger] candidate(base, k)),
    ensures
        m <= devs.len(),
{
    let slugs = devs.map_values(|r: RecordView| r.slug);
    let c = candidates(base, m);
    lemma_candidates(base, m);
    vstd::seq_lib::seq_to_set_is_finite(slugs);
    assert(c.subset_of(slugs.to_set())) by {
        assert forall|s: Seq<char>| c.contains(s) implies slugs.to_set().contains(s) by {
            let k = choose|k: nat| 1 <= k <= m && s == #[trigger] candidate(base, k);
            assert(taken(devs, candidate(base, k)));
            let i = choose|i: int| 0 <= i < devs.len() && (#[trigger] devs[i]).slug == s;
            assert(slugs[i] == s);
            assert(slugs.contains(s));
        }
    }
    vstd::set_lib::lemma_len_subset(c, slugs.to_set());
    slugs.lemma_cardinality_of_set();
}

/// The first free candidate is unique.
proof fn lemma_least_free(devs: Seq<RecordView>, base: Seq<char>, n: nat)
    requires
        least_free(devs, base, n),
    ensures
        allocated(devs, base) == candidate(base, n),
{
    let k = choose|k: nat| least_free(devs, base, k);
    assert(least_free(devs, base, k));
    if k < n {
        assert(taken(devs, candidate(base, k)));
    }
    if n < k {
        assert(taken(devs, candidate(base, n)));
    }
}

/// A free candidate always exists, within one more than the number of records.
pub proof fn lemma_allocation_exists(devs: Seq<RecordView>, base: Seq<char>, from: nat)
    requires
        1 <= from,
        forall|k: nat| 1 <= k < from ==> taken(devs, #[trigger] candidate(base, k)),
    ensures
        exists|n: nat| least_free(devs, base, n),
    decreases devs.len() + 2 - from,
{
    if !taken(devs, candidate(base, from)) {
        assert(least_free(devs, base, from));
    } else {
        lemma_free_candidate(devs, base, from);
        lemma_allocation_exists(devs, base, from + 1);
    }
}

impl Database {
    fn has_slug(&self, slug: &str) -> (yes: bool)
        ensures
            yes == taken(self@, slug@),
    {
        let mut i: usize = 0;
        while i < self.devices.len()
            invariant
                i <= self.devices@.len(),
                forall|j: int| 0 <= j < i ==> (#[trigger] self@[j]).slug != slug@,
            decreases self.devices@.len() - i,
        {
            if text_eq(self.devices[i].slug.as_str(), slug) {
                assert(self@[i as int].slug == slug@);
                return true;
            }
            assert(self@[i as int].slug != slug@);
            i += 1;
        }
        false
    }

    /// The first record called `slug`.
    pub fn find(&self, slug: &str) -> (res: Option<&DeviceRecord>)
        ensures
            match res {
                Some(r) => lookup(self@, slug@) == Some(r@),
                None => lookup(self@, slug@) is None,
            },
    {
        let mut i: usize = 0;
        while i < self.devices.len()
            invariant
                i <= self.devices@.len(),
                forall|j: int| 0 <= j < i ==> (#[trigger] self@[j]).slug != slug@,
            decreases self.devices@.len() - i,
        {
            if text_eq(self.devices[i].slug.as_str(), slug) {
                proof {
                    assert(self@[i as int] == self.devices@[i as int]@);
                    assert(first_at(self@, i as int, slug@));
                    lemma_first_at(self@, i as int, slug@);
                }
                return Some(&self.devices[i]);
            }
            assert(self@[i as int].slug != slug@);
            i += 1;
        }
        proof {
            lemma_lookup_taken(self@, slug@);
        }
        None
    }

    /// The first record called `slug`, for changing it in place.
    pub fn find_mut(&mut self, slug: &str) -> (res: Option<&mut DeviceRecord>)
        ensures
            match res {
                Some(r) => {
                    &&& slug_index(old(self)@, slug@) matches Some(i)
                    &&& *r == old(self).devices@[i]
                    &&& final(self).devices@ == old(self).devices@.update(i, *final(r))
                },
                None => lookup(old(self)@, slug@) is None && *final(self) == *old(self),
            },
    {
        let ghost devs = self@;
        let n: usize = self.devices.len();
        let mut i: usize = 0;
        while i < n
            invariant
                self@ == devs,
                *self == *old(self),
                i <= n == self.devices@.len(),
                forall|j: int| 0 <= j < i ==> (#[trigger] devs[j]).slug != slug@,
            decreases n - i,
        {
            if text_eq(self.devices[i].slug.as_str(), slug) {
                assert(devs[i as int] == self.devices@[i as int]@);
                proof {
                    lemma_first_at(devs, i as int, slug@);
                }
                return Some(&mut self.devices[i]);
            }
            assert(devs[i as int].slug != slug@);
            i += 1;
        }
        proof {
            lemma_lookup_taken(devs, slug@);
        }
        None
    }

    /// First record whose stored identifiers match the live identity.
    pub fn match_identity(&self, id: &DeviceIdentity) -> (res: Option<&DeviceRecord>)
        ensures
            match res {
                Some(r) => match_index(self@, id@) matches Some(i) && self@[i] == r@,
                None => match_index(self@, id@) is None,
            },
    {
        match self.match_position(id) {
            Some(i) => {
                assert(self@[i as int] == self.devices@[i as int]@);
                Some(&self.devices[i])
            },
            None => None,
        }
    }

    fn match_position(&self, id: &DeviceIdentity) -> (res: Option<usize>)
        ensures
            match res {
                Some(i) => first_match(self@, i as int, id@) && match_index(self@, id@) == Some(
                    i as int,
                ),
                None => match_index(self@, id@) is None,
            },
    {
        let mut i: usize = 0;
        while i < self.devices.len()
            invariant
                i <= self.devices@.len(),
                forall|j: int| 0 <= j < i ==> !(#[trigger] self@[j]).describes(id@),
            decreases self.devices@.len() - i,
        {
            assert(self@[i as int] == self.devices@[i as int]@);
            if self.devices[i].matches(id) {
                proof {
                    lemma_first_match(self@, i as int, id@);
                }
                return Some(i);
            }
            i += 1;
        }
        assert forall|k: int| !first_match(self@, k, id@) by {}
        None
    }

    /// Insert a brand-new record built from `id`. Returns the slug it
    /// was assigned. Caller is responsible for matching first; calling
    /// this on a device that already exists in the DB will create a
    /// duplicate entry under a `-N` slug.
    pub fn insert(&mut self, id: &DeviceIdentity) -> (slug: String)
        ensures
            slug@ == new_slug(old(self)@, id@),
            final(self)@ == old(self)@.push(fresh_record(id@, slug@)),
    {
        let mut rec = DeviceRecord {
            slug: String::new(),
            name: id.name.clone(),
            unique_id: id.unique_id.clone(),
            bus: id.bus,
            vendor: id.vendor,
            product: id.product,
            version: id.version,
            physical_path: id.physical_path.clone(),
            capability_fingerprint: known_text(id.capability_fingerprint.as_str()),
            capability_tag: known_text(id.capability_tag),
            enabled: false,
            observed_keys: Vec::new(),
        };
        let label = rec.display_name();
        let slug = self.allocate_slug(slugify(label.as_str()).as_str());
        rec.slug = slug.clone();
        assert(rec@ == fresh_record(id@, slug@));
        let ghost before = self.devices@;
        self.devices.push(rec);
        assert(self@ =~= records(before).push(fresh_record(id@, slug@)));
        slug
    }

    /// Looks the device up and registers it if it is new. A known record
    /// that lacks some of what the device reports is completed.
    pub fn match_or_insert(&mut self, id: &DeviceIdentity) -> (outcome: MatchOutcome)
        ensures
            final(self)@ == after_sighting(old(self)@, id@),
            match outcome {
                MatchOutcome::Matched { slug, backfilled } => {
                    &&& match_index(old(self)@, id@) is Some
                    &&& slug@ == sighted_slug(old(self)@, id@)
                    &&& backfilled == (final(self)@ != old(self)@)
                },
                MatchOutcome::Inserted { slug } => {
                    &&& match_index(old(self)@, id@) is None
                    &&& slug@ == sighted_slug(old(self)@, id@)
                },
            },
    {
        let ghost before = self.devices@;
        match self.match_position(id) {
            Some(i) => {
                let mut rec = self.devices[i].clone();
                let slug = rec.slug.clone();
                let backfilled = rec.backfill(id);
                self.devices.set(i, rec);
                proof {
                    let ghost i = i as int;
                    assert(records(before)[i] == before[i]@);
                    assert(self@ =~= records(before).update(i, records(before)[i].completed(id@)));
                    if backfilled {
                        assert(self@[i] != records(before)[i]);
                    } else {
                        assert(self@ =~= records(before));
                    }
                }
                MatchOutcome::Matched { slug, backfilled }
            },
            None => MatchOutcome::Inserted { slug: self.insert(id) },
        }
    }

    /// Returns `true` iff the slug existed.
    pub fn remove(&mut self, slug: &str) -> (existed: bool)
        ensures
            final(self)@ == without(old(self)@, slug@),
            existed == taken(old(self)@, slug@),
    {
        let ghost devs = self@;
        let ghost keep = |r: RecordView| r.slug != slug@;
        let existed = self.has_slug(slug);
        let mut i: usize = 0;
        let ghost mut k: int = 0;
        proof {
            assert(devs.take(0) =~= Seq::<RecordView>::empty());
            assert(devs.skip(0) =~= devs);
            assert(self@ =~= devs.take(0).filter(keep) + devs.skip(0));
        }
        while i < self.devices.len()
            invariant
                keep == (|r: RecordView| r.slug != slug@),
                0 <= k <= devs.len(),
                self@ == devs.take(k).filter(keep) + devs.skip(k),
                i == devs.take(k).filter(keep).len(),
            decreases devs.len() - k,
        {
            let ghost now = self.devices@;
            let ghost head = devs.take(k).filter(keep);
            assert(self@.len() == now.len());
            assert(self@[i as int] == devs[k]);
            assert(self@[i as int] == now[i as int]@);
            proof {
                assert(devs.take(k + 1) =~= devs.take(k).push(devs[k]));
                devs.take(k).lemma_filter_push(devs[k], keep);
            }
            if text_eq(self.devices[i].slug.as_str(), slug) {
                self.devices.remove(i);
                assert(self@ =~= records(now).remove(i as int));
                assert(self@ =~= head + devs.skip(k + 1));
            } else {
                i += 1;
                assert(self@ =~= head.push(devs[k]) + devs.skip(k + 1));
            }
            proof {
                k = k + 1;
            }
        }
        proof {
            assert(self@.len() == self.devices@.len());
            assert(devs.skip(k).len() == 0);
            assert(devs.take(devs.len() as int) =~= devs);
            assert(self@ =~= devs.filter(keep));
        }
        existed
    }

    /// `base` if no record has it, else `base-2`, `base-3` and so on: the
    /// first that is free.
    pub fn allocate_slug(&self, base: &str) -> (slug: String)
        ensures
            slug@ == allocated(self@, base@),
            !taken(self@, slug@),
    {
        let ghost devs = self@;
        if !self.has_slug(base) {
            proof {
                assert(candidate(base@, 1) == base@);
                assert(least_free(devs, base@, 1));
                lemma_least_free(devs, base@, 1);
            }
            return base.to_owned();
        }
        let mut n: u128 = 2;
        assert(candidate(base@, 1) == base@);
        proof {
            lemma_free_candidate(devs, base@, 1);
        }
        loop
            invariant
                devs == self@,
                devs.len() == self.devices.len(),
                2 <= n <= devs.len() + 1,
                forall|k: nat| 1 <= k < n ==> taken(devs, #[trigger] candidate(base@, k)),
            decreases devs.len() + 2 - n,
        {
            let mut slug: String = base.to_owned();
            slug.append("-");
            slug.append(decimal_text(n).as_str());
            assert(slug@ == candidate(base@, n as nat));
            if !self.has_slug(slug.as_str()) {
                proof {
                    assert(least_free(devs, base@, n as nat));
                    lemma_least_free(devs, base@, n as nat);
                }
                return slug;
            }
            proof {
                lemma_free_candidate(devs, base@, n as nat);
            }
            n += 1;
        }
    }
}

/// The records not called `slug`.
pub open spec fn without(devs: Seq<RecordView>, slug: Seq<char>) -> Seq<RecordView> {
    devs.filter(|r: RecordView| r.slug != slug)
}

/// The slug under which the device `id` is known after a sighting.
pub open spec fn sighted_slug(devs: Seq<RecordView>, id: IdentityView) -> Seq<char> {
    match match_index(devs, id) {
        Some(i) => devs[i].slug,
        None => new_slug(devs, id),
    }
}

/// The database after a sighting of `id`.
pub open spec fn after_sighting(devs: Seq<RecordView>, id: IdentityView) -> Seq<RecordView> {
    match match_index(devs, id) {
        Some(i) => devs.update(i, devs[i].completed(id)),
        None => devs.push(fresh_record(id, new_slug(devs, id))),
    }
}

/// No two records share a slug.
pub open spec fn slugs_unique(devs: Seq<RecordView>) -> bool {
    forall|i: int, j: int|
        0 <= i < j < devs.len() ==> (#[trigger] devs[i]).slug != (#[trigger] devs[j]).slug
}

/// The slug given to a new device is free.
pub proof fn lemma_new_slug_free(devs: Seq<RecordView>, id: IdentityView)
    ensures
        !taken(devs, new_slug(devs, id)),
{
    let base = slug(labelled(id.name, known(id.capability_tag)));
    lemma_allocation_exists(devs, base, 1);
    let n = choose|n: nat| least_free(devs, base, n);
    assert(least_free(devs, base, n));
}

/// The slug given to a new device is a single topic level, free of the
/// characters that structure topics, wildcards and identifiers.
pub proof fn lemma_new_slug_safe(devs: Seq<RecordView>, id: IdentityView)
    ensures
        crate::topics::is_segment(new_slug(devs, id)),
        !new_slug(devs, id).contains('+'),
        !new_slug(devs, id).contains('#'),
        !new_slug(devs, id).contains('_'),
{
    let text = labelled(id.name, known(id.capability_tag));
    let base = slug(text);
    crate::slug::lemma_slug_well_formed(text);
    let n = choose|n: nat| least_free(devs, base, n);
    let s = candidate(base, n);
    reveal_strlit("-");
    crate::text::lemma_decimal_digits(n);
    assert forall|i: int| 0 <= i < s.len() implies crate::slug::is_slug_char(#[trigger] s[i])
        || s[i] == '-' by {
        if i < base.len() {
            assert(s[i] == base[i]);
        } else if i > base.len() {
            assert(s[i] == decimal(n)[i - base.len() - 1]);
        }
    }
}

/// Sightings, removals, switching and new keys all leave slugs unique.
pub proof fn lemma_slugs_stay_unique(
    devs: Seq<RecordView>,
    id: IdentityView,
    slug: Seq<char>,
    i: int,
    on: bool,
    code: u16,
)
    requires
        slugs_unique(devs),
    ensures
        slugs_unique(after_sighting(devs, id)),
        slugs_unique(without(devs, slug)),
        0 <= i < devs.len() ==> slugs_unique(devs.update(i, devs[i].with_enabled(on))),
        0 <= i < devs.len() ==> slugs_unique(devs.update(i, devs[i].with_key(code))),
{
    lemma_new_slug_free(devs, id);
    lemma_match_index(devs, id);
    lemma_without_unique(devs, slug);
}

/// A device is matched to the first record that describes it, and to none if no
/// record does.
pub proof fn lemma_match_index(devs: Seq<RecordView>, id: IdentityView)
    ensures
        match_index(devs, id) matches Some(i) ==> first_match(devs, i, id),
        match_index(devs, id) is None ==> forall|i: int|
            0 <= i < devs.len() ==> !(#[trigger] devs[i]).describes(id),
{
    if match_index(devs, id) is Some {
        let i = choose|i: int| first_match(devs, i, id);
        assert(first_match(devs, i, id));
    } else {
        assert forall|i: int| 0 <= i < devs.len() implies !(#[trigger] devs[i]).describes(id) by {
            if devs[i].describes(id) {
                lemma_first_match_exists(devs, i, id);
            }
        }
    }
}

proof fn lemma_first_match_exists(devs: Seq<RecordView>, i: int, id: IdentityView)
    requires
        0 <= i < devs.len(),
        devs[i].describes(id),
    ensures
        exists|k: int| first_match(devs, k, id),
    decreases i,
{
    if first_match(devs, i, id) {
    } else {
        let j = choose|j: int| 0 <= j < i && (#[trigger] devs[j]).describes(id);
        lemma_first_match_exists(devs, j, id);
    }
}

/// A removal leaves slugs unique and adds none.
pub proof fn lemma_without_unique(devs: Seq<RecordView>, slug: Seq<char>)
    requires
        slugs_unique(devs),
    ensures
        slugs_unique(without(devs, slug)),
        forall|i: int|
            0 <= i < without(devs, slug).len() ==> taken(
                devs,
                (#[trigger] without(devs, slug)[i]).slug,
            ),
    decreases devs.len(),
{
    let keep = |r: RecordView| r.slug != slug;
    reveal(Seq::filter);
    if devs.len() > 0 {
        let init = devs.drop_last();
        lemma_without_unique(init, slug);
        assert(devs =~= init.push(devs.last()));
        let rest = without(init, slug);
        assert forall|i: int| 0 <= i < without(devs, slug).len() implies taken(
            devs,
            (#[trigger] without(devs, slug)[i]).slug,
        ) by {
            let s = without(devs, slug)[i].slug;
            if i < rest.len() {
                assert(without(devs, slug)[i] == rest[i]);
                assert(taken(init, s));
                let k = choose|k: int| 0 <= k < init.len() && (#[trigger] init[k]).slug == s;
                assert(devs[k].slug == s);
            } else {
                assert(devs[devs.len() - 1].slug == s);
            }
        }
        assert forall|i: int, j: int| 0 <= i < j < without(devs, slug).len() implies (
        #[trigger] without(devs, slug)[i]).slug != (#[trigger] without(devs, slug)[j]).slug by {
            assert(without(devs, slug)[i] == rest[i]);
            if j < rest.len() {
                assert(without(devs, slug)[j] == rest[j]);
            } else {
                assert(taken(init, rest[i].slug));
                let k = choose|k: int|
                    0 <= k < init.len() && (#[trigger] init[k]).slug == rest[i].slug;
                assert(devs[k].slug == rest[i].slug);
                assert(devs[devs.len() - 1] == devs.last());
            }
        }
    }
}

/// A slug, once assigned, is permanent: a sighting changes no record's slug,
/// and neither switches a device nor forgets its keys.
pub proof fn lemma_sighting_keeps_slugs(devs: Seq<RecordView>, id: IdentityView, i: int)
    requires
        0 <= i < devs.len(),
    ensures
        after_sighting(devs, id).len() >= devs.len(),
        after_sighting(devs, id)[i].slug == devs[i].slug,
        after_sighting(devs, id)[i].enabled == devs[i].enabled,
        after_sighting(devs, id)[i].observed_keys == devs[i].observed_keys,
{
    lemma_match_index(devs, id);
}

/// A device that comes back is recognised: the second sighting of a device finds
/// the record of the first, under the same slug, and changes nothing.
pub proof fn lemma_sighting_idempotent(devs: Seq<RecordView>, id: IdentityView)
    ensures
        match_index(after_sighting(devs, id), id) is Some,
        sighted_slug(after_sighting(devs, id), id) == sighted_slug(devs, id),
        after_sighting(after_sighting(devs, id), id) == after_sighting(devs, id),
{
    let after = after_sighting(devs, id);
    lemma_match_index(devs, id);
    match match_index(devs, id) {
        Some(i) => {
            assert(after[i] == devs[i].completed(id));
            assert(after[i].describes(id));
            assert forall|j: int| 0 <= j < i implies !(#[trigger] after[j]).describes(id) by {
                assert(after[j] == devs[j]);
            }
            lemma_first_match(after, i, id);
            assert(after[i].completed(id) == after[i]);
            assert(after.update(i, after[i]) =~= after);
        },
        None => {
            let i = devs.len() as int;
            assert(after[i] == fresh_record(id, new_slug(devs, id)));
            assert(after[i].describes(id));
            assert forall|j: int| 0 <= j < i implies !(#[trigger] after[j]).describes(id) by {
                assert(after[j] == devs[j]);
            }
            lemma_first_match(after, i, id);
            assert(after[i].completed(id) == after[i]);
            assert(after.update(i, after[i]) =~= after);
        },
    }
}

/// A new device starts out switched off and with no keys.
pub proof fn lemma_new_device_disabled(devs: Seq<RecordView>, id: IdentityView)
    requires
        match_index(devs, id) is None,
    ensures
        lookup(after_sighting(devs, id), sighted_slug(devs, id)) matches Some(r) && !r.enabled
            && r.observed_keys.len() == 0,
{
    let after = after_sighting(devs, id);
    let s = new_slug(devs, id);
    lemma_new_slug_free(devs, id);
    let i = devs.len() as int;
    assert forall|j: int| 0 <= j < i implies (#[trigger] after[j]).slug != s by {
        assert(after[j] == devs[j]);
        assert(devs[j].slug != s);
    }
    lemma_first_at(after, i, s);
}

/// Removing a slug that no record has changes nothing.
pub proof fn lemma_without_absent(devs: Seq<RecordView>, slug: Seq<char>)
    requires
        !taken(devs, slug),
    ensures
        without(devs, slug) == devs,
    decreases devs.len(),
{
    reveal(Seq::filter);
    if devs.len() > 0 {
        let init = devs.drop_last();
        assert(devs =~= init.push(devs.last()));
        assert(!taken(init, slug)) by {
            if taken(init, slug) {
                let k = choose|k: int| 0 <= k < init.len() && (#[trigger] init[k]).slug == slug;
                assert(devs[k].slug == slug);
            }
        }
        lemma_without_absent(init, slug);
        assert(devs[devs.len() - 1].slug != slug);
    }
}

/// A removed slug is gone, and no other slug is touched.
pub proof fn lemma_remove_lookup(devs: Seq<RecordView>, slug: Seq<char>, other: Seq<char>)
    ensures
        lookup(without(devs, slug), slug) is None,
        other != slug ==> lookup(without(devs, slug), other) == lookup(devs, other),
    decreases devs.len(),
{
    lemma_lookup_taken(devs, other);
    lemma_lookup_taken(without(devs, slug), slug);
    lemma_lookup_taken(without(devs, slug), other);
    broadcast use vstd::seq_lib::group_filter_ensures;
    if devs.len() > 0 {
        reveal(Seq::filter);
        let init = devs.drop_last();
        let last = devs.last();
        lemma_remove_lookup(init, slug, other);
        assert(devs =~= init.push(last));
        lemma_lookup_push(init, last, other);
        if last.slug != slug {
            lemma_lookup_push(without(init, slug), last, other);
            lemma_lookup_push(without(init, slug), last, slug);
        }
    }
}

/// A record appended behind others is found under its slug only if none of them
/// has it.
pub proof fn lemma_lookup_push(devs: Seq<RecordView>, r: RecordView, slug: Seq<char>)
    ensures
        lookup(devs.push(r), slug) == (match lookup(devs, slug) {
            Some(found) => Some(found),
            None => if r.slug == slug {
                Some(r)
            } else {
                None
            },
        }),
{
    let longer = devs.push(r);
    lemma_lookup_taken(devs, slug);
    lemma_lookup_taken(longer, slug);
    match slug_index(devs, slug) {
        Some(i) => {
            assert(first_at(longer, i, slug)) by {
                assert forall|j: int| 0 <= j < i implies (#[trigger] longer[j]).slug != slug by {
                    assert(longer[j] == devs[j]);
                    assert(devs[j].slug != slug);
                }
            }
            lemma_first_at(longer, i, slug);
        },
        None => {
            if r.slug == slug {
                let n = devs.len() as int;
                assert forall|j: int| 0 <= j < n implies (#[trigger] longer[j]).slug != slug by {
                    assert(longer[j] == devs[j]);
                    assert(devs[j].slug != slug);
                }
                lemma_first_at(longer, n, slug);
            } else if taken(longer, slug) {
                let k = choose|k: int| 0 <= k < longer.len() && (#[trigger] longer[k]).slug == slug;
                assert(devs[k].slug == slug);
            }
        },
    }
}

/// Recording a key twice is recording it once.
pub proof fn lemma_key_recorded_once(r: RecordView, code: u16)
    ensures
        r.with_key(code).observed_keys.contains(code),
        r.with_key(code).with_key(code) == r.with_key(code),
        forall|c: u16| c != code ==> #[trigger] r.with_key(code).observed_keys.contains(c)
            == r.observed_keys.contains(c),
{
    let longer = r.observed_keys.push(code);
    crate::codes::lemma_sorted_codes_ensures(longer);
    assert(longer.last() == code);
    assert(longer.contains(code));
    assert forall|c: u16| c != code implies #[trigger] r.with_key(code).observed_keys.contains(c)
        == r.observed_keys.contains(c) by {
        if r.observed_keys.contains(c) {
            let k = choose|k: int| 0 <= k < r.observed_keys.len() && r.observed_keys[k] == c;
            assert(longer[k] == c);
        }
        if longer.contains(c) {
            let k = choose|k: int| 0 <= k < longer.len() && longer[k] == c;
            assert(r.observed_keys[k] == c);
        }
    }
}

/// Each code is smaller than the ones behind it.
pub open spec fn strictly_ascending(codes: Seq<u16>) -> bool {
    forall|i: int, j: int| 0 <= i < j < codes.len() ==> #[trigger] codes[i] < #[trigger] codes[j]
}

/// Observed keys stay sorted, and none is listed twice.
pub proof fn lemma_keys_stay_sorted(r: RecordView, code: u16)
    requires
        strictly_ascending(r.observed_keys),
    ensures
        strictly_ascending(r.with_key(code).observed_keys),
{
    if !r.observed_keys.contains(code) {
        let longer = r.observed_keys.push(code);
        let sorted = sorted_codes(longer);
        crate::codes::lemma_sorted_codes_ensures(longer);
        assert(longer.no_duplicates()) by {
            assert forall|i: int, j: int|
                0 <= i < longer.len() && 0 <= j < longer.len() && i != j implies longer[i]
                != longer[j] by {
                if i < r.observed_keys.len() {
                    assert(r.observed_keys.contains(longer[i]));
                }
                if j < r.observed_keys.len() {
                    assert(r.observed_keys.contains(longer[j]));
                }
            }
        }
        longer.lemma_multiset_has_no_duplicates();
        sorted.lemma_multiset_has_no_duplicates_conv();
        assert forall|i: int, j: int| 0 <= i < j < sorted.len() implies #[trigger] sorted[i]
            < #[trigger] sorted[j] by {
            assert((crate::codes::code_leq())(sorted[i], sorted[j]));
        }
    }
}

} // verus!
