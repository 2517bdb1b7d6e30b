//! The database on disk: its format, reading it, and replacing it atomically.
//!
//! The file is a TOML document with a single member, named after the version of
//! the format. A reader that does not know the version fails.

use crate::db::{records, Database, DeviceRecord, RecordView};
use crate::text::{decimal, decimal_text, opt_text, text_eq, texts};
use crate::toml_tree::{
    bare_key, entries, entry_of, flat, found, ledger, table_get, table_insert, table_keys, table_new,
    toml_as_bool, toml_as_int, toml_as_list, toml_as_str, toml_as_table, toml_bool, toml_document,
    toml_int, toml_list, toml_parse, toml_print, toml_string, toml_table, toml_text, toml_tree,
    toml_trees, TomlTree,
};
use vstd::prelude::*;
use vstd::string::*;

verus! {

/// The text member `key`; `None` if it is something else.
pub open spec fn text_field(m: Map<Seq<char>, TomlTree>, key: Seq<char>) -> Option<
    Option<Seq<char>>,
> {
    match entry_of(m, key) {
        Some(v) => match v.text() {
            Some(s) => Some(Some(s)),
            None => None,
        },
        None => Some(None),
    }
}

/// The 16-bit number that a value is.
pub open spec fn word_value(v: TomlTree) -> Option<u16> {
    match v.number() {
        Some(n) => if 0 <= n <= 0xffff {
            Some(n as u16)
        } else {
            None
        },
        None => None,
    }
}

/// The 16-bit member `key`, 0 if it is missing; `None` if it is something else.
pub open spec fn word_field(m: Map<Seq<char>, TomlTree>, key: Seq<char>) -> Option<u16> {
    match entry_of(m, key) {
        Some(v) => word_value(v),
        None => Some(0),
    }
}

/// The boolean member `key`, false if it is missing; `None` if it is something
/// else.
pub open spec fn bool_field(m: Map<Seq<char>, TomlTree>, key: Seq<char>) -> Option<bool> {
    match entry_of(m, key) {
        Some(v) => v.boolean(),
        None => Some(false),
    }
}

/// The list of 16-bit numbers that a value is.
pub open spec fn words_value(v: TomlTree) -> Option<Seq<u16>> {
    match v.list() {
        Some(items) => if forall|i: int|
            0 <= i < items.len() ==> word_value(#[trigger] items[i]) is Some {
            Some(items.map_values(|t: TomlTree| word_value(t)->0))
        } else {
            None
        },
        None => None,
    }
}

/// The list of 16-bit numbers `key`, empty if it is missing; `None` if it is
/// something else.
pub open spec fn words_field(m: Map<Seq<char>, TomlTree>, key: Seq<char>) -> Option<Seq<u16>> {
    match entry_of(m, key) {
        Some(v) => words_value(v),
        None => Some(Seq::empty()),
    }
}

/// The names of a record's members.
pub open spec fn record_field(k: Seq<char>) -> bool {
    ||| k == "slug"@
    ||| k == "name"@
    ||| k == "unique_id"@
    ||| k == "bus"@
    ||| k == "vendor"@
    ||| k == "product"@
    ||| k == "version"@
    ||| k == "physical_path"@
    ||| k == "capability_fingerprint"@
    ||| k == "capability_tag"@
    ||| k == "enabled"@
    ||| k == "observed_keys"@
}

/// A record read from a table: slug and name are required, everything else has a
/// default, and nothing else may be there.
pub open spec fn record_of(m: Map<Seq<char>, TomlTree>) -> Option<RecordView> {
    match (
        (text_field(m, "slug"@), text_field(m, "name"@), text_field(m, "unique_id"@)),
        (
            word_field(m, "bus"@),
            word_field(m, "vendor"@),
            word_field(m, "product"@),
            word_field(m, "version"@),
        ),
        (
            text_field(m, "physical_path"@),
            text_field(m, "capability_fingerprint"@),
            text_field(m, "capability_tag"@),
        ),
        (bool_field(m, "enabled"@), words_field(m, "observed_keys"@)),
    ) {
        (
            (Some(Some(slug)), Some(Some(name)), Some(unique_id)),
            (Some(bus), Some(vendor), Some(product), Some(version)),
            (Some(physical_path), Some(capability_fingerprint), Some(capability_tag)),
            (Some(enabled), Some(observed_keys)),
        ) => if forall|k: Seq<char>| #[trigger] m.contains_key(k) ==> record_field(k) {
            Some(
                RecordView {
                    slug,
                    name,
                    unique_id,
                    bus,
                    vendor,
                    product,
                    version,
                    physical_path,
                    capability_fingerprint,
                    capability_tag,
                    enabled,
                    observed_keys,
                },
            )
        } else {
            None
        },
        _ => None,
    }
}

/// The record that a value is.
pub open spec fn record_value(v: TomlTree) -> Option<RecordView> {
    match v.table() {
        Some(m) => record_of(m),
        None => None,
    }
}

/// The records that a value lists.
pub open spec fn records_value(v: TomlTree) -> Option<Seq<RecordView>> {
    match v.list() {
        Some(items) => if forall|i: int|
            0 <= i < items.len() ==> record_value(#[trigger] items[i]) is Some {
            Some(items.map_values(|t: TomlTree| record_value(t)->0))
        } else {
            None
        },
        None => None,
    }
}

/// The records in the body of a version 1 file.
pub open spec fn body_of(m: Map<Seq<char>, TomlTree>) -> Option<Seq<RecordView>> {
    if forall|k: Seq<char>| #[trigger] m.contains_key(k) ==> k == "devices"@ {
        match entry_of(m, "devices"@) {
            Some(v) => records_value(v),
            None => Some(Seq::empty()),
        }
    } else {
        None
    }
}

/// The records in a document.
pub open spec fn database_of(m: Map<Seq<char>, TomlTree>) -> Option<Seq<RecordView>> {
    if forall|k: Seq<char>| #[trigger] m.contains_key(k) ==> k == "SchemaV1"@ {
        match entry_of(m, "SchemaV1"@) {
            Some(v) => match v.table() {
                Some(body) => body_of(body),
                None => None,
            },
            None => None,
        }
    } else {
        None
    }
}

/// The first member of a record, in the order of the format, that cannot be read.
pub open spec fn first_bad_field(m: Map<Seq<char>, TomlTree>) -> Option<Seq<char>> {
    if !(text_field(m, "slug"@) matches Some(Some(_))) {
        Some("slug"@)
    } else if !(text_field(m, "name"@) matches Some(Some(_))) {
        Some("name"@)
    } else if text_field(m, "unique_id"@) is None {
        Some("unique_id"@)
    } else if word_field(m, "bus"@) is None {
        Some("bus"@)
    } else if word_field(m, "vendor"@) is None {
        Some("vendor"@)
    } else if word_field(m, "product"@) is None {
        Some("product"@)
    } else if word_field(m, "version"@) is None {
        Some("version"@)
    } else if text_field(m, "physical_path"@) is None {
        Some("physical_path"@)
    } else if text_field(m, "capability_fingerprint"@) is None {
        Some("capability_fingerprint"@)
    } else if text_field(m, "capability_tag"@) is None {
        Some("capability_tag"@)
    } else if bool_field(m, "enabled"@) is None {
        Some("enabled"@)
    } else if words_field(m, "observed_keys"@) is None {
        Some("observed_keys"@)
    } else {
        None
    }
}

/// Why a value is no record.
pub open spec fn record_fault(v: TomlTree) -> Seq<char> {
    match v.table() {
        Some(m) => match first_bad_field(m) {
            Some(k) => if m.contains_key(k) {
                "invalid field "@ + k
            } else {
                "missing field "@ + k
            },
            None => "unknown field"@,
        },
        None => "not a table"@,
    }
}

/// What is wrong with the first value from `i` on that is no record, and which
/// one that is.
pub open spec fn records_fault(items: Seq<TomlTree>, i: nat) -> Seq<char>
    decreases items.len() - i,
{
    if i >= items.len() {
        ""@
    } else if record_value(items[i as int]) is None {
        "device "@ + decimal(i + 1) + ": "@ + record_fault(items[i as int])
    } else {
        records_fault(items, i + 1)
    }
}

/// Why the body of a version 1 file is none.
pub open spec fn body_fault(m: Map<Seq<char>, TomlTree>) -> Seq<char> {
    match entry_of(m, "devices"@) {
        Some(v) => if forall|k: Seq<char>| #[trigger] m.contains_key(k) ==> k == "devices"@ {
            match v.list() {
                Some(items) => records_fault(items, 0),
                None => "devices: not a list"@,
            }
        } else {
            "SchemaV1: unknown field"@
        },
        None => "SchemaV1: unknown field"@,
    }
}

/// Why a document is no database.
pub open spec fn document_fault(m: Map<Seq<char>, TomlTree>) -> Seq<char> {
    if forall|k: Seq<char>| #[trigger] m.contains_key(k) ==> k == "SchemaV1"@ {
        match entry_of(m, "SchemaV1"@) {
            Some(v) => match v.table() {
                Some(body) => body_fault(body),
                None => "SchemaV1: not a table"@,
            },
            None => UNKNOWN_VERSION@,
        }
    } else {
        UNKNOWN_VERSION@
    }
}

/// `m` with the text member `key`, if there is one.
pub open spec fn with_text(
    m: Map<Seq<char>, TomlTree>,
    key: Seq<char>,
    value: Option<Seq<char>>,
) -> Map<Seq<char>, TomlTree> {
    match value {
        Some(s) => m.insert(key, TomlTree::Text(s)),
        None => m,
    }
}

/// The table of a record. What is not known is left out.
pub open spec fn record_table(r: RecordView) -> Map<Seq<char>, TomlTree> {
    let m =
        map![
        "slug"@ => TomlTree::Text(r.slug),
        "name"@ => TomlTree::Text(r.name),
        "bus"@ => TomlTree::Int(r.bus as i64),
        "vendor"@ => TomlTree::Int(r.vendor as i64),
        "product"@ => TomlTree::Int(r.product as i64),
        "version"@ => TomlTree::Int(r.version as i64),
        "enabled"@ => TomlTree::Bool(r.enabled),
        "observed_keys"@ => TomlTree::List(r.observed_keys.map_values(|c: u16| TomlTree::Int(c as i64))),
    ];
    let m = with_text(m, "unique_id"@, r.unique_id);
    let m = with_text(m, "physical_path"@, r.physical_path);
    let m = with_text(m, "capability_fingerprint"@, r.capability_fingerprint);
    with_text(m, "capability_tag"@, r.capability_tag)
}

/// The document of a database.
pub open spec fn database_table(devs: Seq<RecordView>) -> Map<Seq<char>, TomlTree> {
    map![
        "SchemaV1"@ => TomlTree::Table(
            map![
                "devices"@ => TomlTree::List(
                    devs.map_values(|r: RecordView| TomlTree::Table(record_table(r))),
                ),
            ],
        ),
    ]
}

/// Every key of the format is bare, and all of them differ.
pub proof fn lemma_keys()
    ensures
        forall|k: Seq<char>| #[trigger] record_field(k) ==> bare_key(k),
        bare_key("SchemaV1"@),
        bare_key("devices"@),
        "slug"@.len() == 4,
        "name"@.len() == 4,
        "slug"@ != "name"@,
        "unique_id"@.len() == 9,
        "bus"@.len() == 3,
        "vendor"@.len() == 6,
        "product"@.len() == 7,
        "version"@.len() == 7,
        "product"@ != "version"@,
        "physical_path"@.len() == 13,
        "capability_fingerprint"@.len() == 22,
        "capability_tag"@.len() == 14,
        "enabled"@.len() == 7,
        "enabled"@ != "product"@,
        "enabled"@ != "version"@,
        "observed_keys"@.len() == 13,
        "observed_keys"@ != "physical_path"@,
{
    reveal_strlit("slug");
    reveal_strlit("name");
    reveal_strlit("unique_id");
    reveal_strlit("bus");
    reveal_strlit("vendor");
    reveal_strlit("product");
    reveal_strlit("version");
    reveal_strlit("physical_path");
    reveal_strlit("capability_fingerprint");
    reveal_strlit("capability_tag");
    reveal_strlit("enabled");
    reveal_strlit("observed_keys");
    reveal_strlit("SchemaV1");
    reveal_strlit("devices");
    assert("slug"@[0] == 's' && "name"@[0] == 'n');
    assert("product"@[0] == 'p' && "version"@[0] == 'v' && "enabled"@[0] == 'e');
    assert("observed_keys"@[0] == 'o' && "physical_path"@[0] == 'p');
}

/// A record survives its table.
pub proof fn lemma_record_round_trip(r: RecordView)
    ensures
        record_of(record_table(r)) == Some(r),
        flat(record_table(r)),
{
    lemma_keys();
    let m = record_table(r);
    let codes = r.observed_keys.map_values(|c: u16| TomlTree::Int(c as i64));
    assert forall|i: int| 0 <= i < codes.len() implies word_value(#[trigger] codes[i]) == Some(
        r.observed_keys[i],
    ) by {
        assert(codes[i] == TomlTree::Int(r.observed_keys[i] as i64));
    }
    assert(codes.map_values(|t: TomlTree| word_value(t)->0) =~= r.observed_keys);
    assert(words_field(m, "observed_keys"@) == Some(r.observed_keys));
    assert(text_field(m, "slug"@) == Some(Some(r.slug)));
    assert(text_field(m, "name"@) == Some(Some(r.name)));
    assert(text_field(m, "unique_id"@) == Some(r.unique_id));
    assert(text_field(m, "physical_path"@) == Some(r.physical_path));
    assert(text_field(m, "capability_fingerprint"@) == Some(r.capability_fingerprint));
    assert(text_field(m, "capability_tag"@) == Some(r.capability_tag));
    assert(forall|k: Seq<char>| #[trigger] m.contains_key(k) ==> record_field(k));
    assert forall|k: Seq<char>| #[trigger] m.contains_key(k) implies bare_key(k) && (m[k].scalar()
        || (m[k] matches TomlTree::List(items) && forall|i: int|
        0 <= i < items.len() ==> (#[trigger] items[i]).scalar())) by {
        assert(record_field(k));
    }
}

/// What is written is what is read: the document of a database holds that
/// database.
pub proof fn lemma_database_round_trip(devs: Seq<RecordView>)
    ensures
        database_of(database_table(devs)) == Some(devs),
{
    let m = database_table(devs);
    let items = devs.map_values(|r: RecordView| TomlTree::Table(record_table(r)));
    assert forall|i: int| 0 <= i < items.len() implies record_value(#[trigger] items[i]) == Some(
        devs[i],
    ) by {
        lemma_record_round_trip(devs[i]);
    }
    assert(items.map_values(|t: TomlTree| record_value(t)->0) =~= devs);
}

/// A file of an unknown version is not read.
pub proof fn lemma_unknown_version_rejected(m: Map<Seq<char>, TomlTree>, version: Seq<char>)
    requires
        m.contains_key(version),
        version != "SchemaV1"@,
    ensures
        database_of(m) is None,
{
}

/// Something other than the list of devices in a file is not read.
pub proof fn lemma_unknown_member_rejected(
    m: Map<Seq<char>, TomlTree>,
    body: Map<Seq<char>, TomlTree>,
    member: Seq<char>,
)
    requires
        m.contains_key("SchemaV1"@),
        m["SchemaV1"@] == TomlTree::Table(body),
        body.contains_key(member),
        member != "devices"@,
    ensures
        database_of(m) is None,
{
}

proof fn lemma_database_ledger(devs: Seq<RecordView>)
    ensures
        ledger(database_table(devs)),
{
    lemma_keys();
    let items = devs.map_values(|r: RecordView| TomlTree::Table(record_table(r)));
    assert forall|i: int| 0 <= i < items.len() implies ((#[trigger] items[i]) matches
        TomlTree::Table(t) && flat(t)) by {
        lemma_record_round_trip(devs[i]);
    }
}

fn put_opt_text(
    t: &mut toml::map::Map<String, toml::Value>,
    key: &str,
    value: &Option<String>,
)
    ensures
        entries(*final(t)) == with_text(entries(*old(t)), key@, opt_text(*value)),
{
    if let Some(s) = value {
        table_insert(t, key.to_owned(), toml_string(s.clone()));
    }
}

fn encode_record(r: &DeviceRecord) -> (out: toml::Value)
    ensures
        toml_tree(out) == TomlTree::Table(record_table(r@)),
{
    let ghost f = |c: u16| TomlTree::Int(c as i64);
    let mut codes: Vec<toml::Value> = Vec::new();
    let mut i: usize = 0;
    while i < r.observed_keys.len()
        invariant
            i <= r.observed_keys@.len(),
            codes@.len() == i,
            forall|j: int|
                0 <= j < i ==> toml_tree(#[trigger] codes@[j]) == TomlTree::Int(
                    r.observed_keys@[j] as i64,
                ),
        decreases r.observed_keys@.len() - i,
    {
        codes.push(toml_int(r.observed_keys[i] as i64));
        i += 1;
    }
    assert(toml_trees(codes@) =~= r@.observed_keys.map_values(f));
    let mut t = table_new();
    table_insert(&mut t, "slug".to_owned(), toml_string(r.slug.clone()));
    table_insert(&mut t, "name".to_owned(), toml_string(r.name.clone()));
    table_insert(&mut t, "bus".to_owned(), toml_int(r.bus as i64));
    table_insert(&mut t, "vendor".to_owned(), toml_int(r.vendor as i64));
    table_insert(&mut t, "product".to_owned(), toml_int(r.product as i64));
    table_insert(&mut t, "version".to_owned(), toml_int(r.version as i64));
    table_insert(&mut t, "enabled".to_owned(), toml_bool(r.enabled));
    table_insert(&mut t, "observed_keys".to_owned(), toml_list(codes));
    put_opt_text(&mut t, "unique_id", &r.unique_id);
    put_opt_text(&mut t, "physical_path", &r.physical_path);
    put_opt_text(&mut t, "capability_fingerprint", &r.capability_fingerprint);
    put_opt_text(&mut t, "capability_tag", &r.capability_tag);
    toml_table(t)
}

/// The text inside two layers of options.
pub open spec fn opt_opt_text(o: Option<Option<String>>) -> Option<Option<Seq<char>>> {
    match o {
        Some(s) => Some(opt_text(s)),
        None => None,
    }
}

fn read_text(t: &toml::map::Map<String, toml::Value>, key: &str) -> (out: Option<Option<String>>)
    ensures
        opt_opt_text(out) == text_field(entries(*t), key@),
{
    match table_get(t, key) {
        Some(v) => match toml_as_str(v) {
            Some(s) => Some(Some(s.to_owned())),
            None => None,
        },
        None => Some(None),
    }
}

fn word(v: &toml::Value) -> (out: Option<u16>)
    ensures
        out == word_value(toml_tree(*v)),
{
    match toml_as_int(v) {
        Some(n) => {
            if 0 <= n && n <= 0xffff {
                Some(n as u16)
            } else {
                None
            }
        },
        None => None,
    }
}

fn read_word(t: &toml::map::Map<String, toml::Value>, key: &str) -> (out: Option<u16>)
    ensures
        out == word_field(entries(*t), key@),
{
    match table_get(t, key) {
        Some(v) => word(v),
        None => Some(0),
    }
}

fn read_bool(t: &toml::map::Map<String, toml::Value>, key: &str) -> (out: Option<bool>)
    ensures
        out == bool_field(entries(*t), key@),
{
    match table_get(t, key) {
        Some(v) => toml_as_bool(v),
        None => Some(false),
    }
}

/// The codes inside an optional list.
pub open spec fn opt_words(o: Option<Vec<u16>>) -> Option<Seq<u16>> {
    match o {
        Some(v) => Some(v@),
        None => None,
    }
}

fn read_words(t: &toml::map::Map<String, toml::Value>, key: &str) -> (out: Option<Vec<u16>>)
    ensures
        opt_words(out) == words_field(entries(*t), key@),
{
    let v = match table_get(t, key) {
        Some(v) => v,
        None => {
            let none: Vec<u16> = Vec::new();
            assert(none@ =~= Seq::<u16>::empty());
            return Some(none);
        },
    };
    let items = match toml_as_list(v) {
        Some(items) => items,
        None => {
            return None;
        },
    };
    let ghost all = toml_trees(items@);
    let mut out: Vec<u16> = Vec::new();
    let mut i: usize = 0;
    while i < items.len()
        invariant
            all == toml_trees(items@),
            entry_of(entries(*t), key@) == Some(toml_tree(*v)),
            toml_tree(*v).list() == Some(all),
            i <= items@.len(),
            out@.len() == i,
            forall|j: int| 0 <= j < i ==> word_value(#[trigger] all[j]) == Some(out@[j]),
        decreases items@.len() - i,
    {
        assert(all[i as int] == toml_tree(items@[i as int]));
        match word(&items[i]) {
            Some(n) => {
                out.push(n);
            },
            None => {
                return None;
            },
        }
        i += 1;
    }
    assert(out@ =~= all.map_values(|t: TomlTree| word_value(t)->0));
    Some(out)
}

fn is_record_field(k: &str) -> (yes: bool)
    ensures
        yes == record_field(k@),
{
    text_eq(k, "slug") || text_eq(k, "name") || text_eq(k, "unique_id") || text_eq(k, "bus")
        || text_eq(k, "vendor") || text_eq(k, "product") || text_eq(k, "version") || text_eq(
        k,
        "physical_path",
    ) || text_eq(k, "capability_fingerprint") || text_eq(k, "capability_tag") || text_eq(
        k,
        "enabled",
    ) || text_eq(k, "observed_keys")
}

/// Whether every member of a table belongs to a record.
fn only_record_fields(t: &toml::map::Map<String, toml::Value>) -> (yes: bool)
    ensures
        yes == (forall|k: Seq<char>| #[trigger]
            entries(*t).contains_key(k) ==> record_field(k)),
{
    let keys = table_keys(t);
    let mut i: usize = 0;
    while i < keys.len()
        invariant
            i <= keys@.len(),
            texts(keys@).to_set() == entries(*t).dom(),
            forall|j: int| 0 <= j < i ==> record_field(#[trigger] texts(keys@)[j]),
        decreases keys@.len() - i,
    {
        assert(texts(keys@)[i as int] == keys@[i as int]@);
        if !is_record_field(keys[i].as_str()) {
            assert(texts(keys@).contains(keys@[i as int]@));
            assert(entries(*t).dom().contains(keys@[i as int]@));
            assert(entries(*t).contains_key(keys@[i as int]@));
            return false;
        }
        i += 1;
    }
    assert forall|k: Seq<char>| #[trigger] entries(*t).contains_key(k) implies record_field(k) by {
        assert(texts(keys@).to_set().contains(k));
        let j = choose|j: int| 0 <= j < texts(keys@).len() && texts(keys@)[j] == k;
        assert(record_field(texts(keys@)[j]));
    }
    true
}

/// Whether `key` is the only member that a table can have.
fn only_key(t: &toml::map::Map<String, toml::Value>, key: &str) -> (yes: bool)
    ensures
        yes == (forall|k: Seq<char>| #[trigger] entries(*t).contains_key(k) ==> k == key@),
{
    let keys = table_keys(t);
    let mut i: usize = 0;
    while i < keys.len()
        invariant
            i <= keys@.len(),
            texts(keys@).to_set() == entries(*t).dom(),
            forall|j: int| 0 <= j < i ==> #[trigger] texts(keys@)[j] == key@,
        decreases keys@.len() - i,
    {
        assert(texts(keys@)[i as int] == keys@[i as int]@);
        if !text_eq(keys[i].as_str(), key) {
            assert(texts(keys@).contains(keys@[i as int]@));
            assert(entries(*t).dom().contains(keys@[i as int]@));
            assert(entries(*t).contains_key(keys@[i as int]@));
            return false;
        }
        i += 1;
    }
    assert forall|k: Seq<char>| #[trigger] entries(*t).contains_key(k) implies k == key@ by {
        assert(texts(keys@).to_set().contains(k));
        let j = choose|j: int| 0 <= j < texts(keys@).len() && texts(keys@)[j] == k;
        assert(texts(keys@)[j] == key@);
    }
    true
}

/// The record inside an option.
pub open spec fn opt_record(o: Option<DeviceRecord>) -> Option<RecordView> {
    match o {
        Some(r) => Some(r@),
        None => None,
    }
}

fn decode_record(v: &toml::Value) -> (out: Option<DeviceRecord>)
    ensures
        opt_record(out) == record_value(toml_tree(*v)),
{
    let t = match toml_as_table(v) {
        Some(t) => t,
        None => {
            return None;
        },
    };
    if !only_record_fields(t) {
        return None;
    }
    let (slug, name) = match (read_text(t, "slug"), read_text(t, "name")) {
        (Some(Some(slug)), Some(Some(name))) => (slug, name),
        _ => {
            return None;
        },
    };
    let (unique_id, physical_path) = match (
        read_text(t, "unique_id"),
        read_text(t, "physical_path"),
    ) {
        (Some(u), Some(p)) => (u, p),
        _ => {
            return None;
        },
    };
    let (capability_fingerprint, capability_tag) = match (
        read_text(t, "capability_fingerprint"),
        read_text(t, "capability_tag"),
    ) {
        (Some(f), Some(g)) => (f, g),
        _ => {
            return None;
        },
    };
    let (bus, vendor) = match (read_word(t, "bus"), read_word(t, "vendor")) {
        (Some(b), Some(v)) => (b, v),
        _ => {
            return None;
        },
    };
    let (product, version) = match (read_word(t, "product"), read_word(t, "version")) {
        (Some(p), Some(v)) => (p, v),
        _ => {
            return None;
        },
    };
    match (read_bool(t, "enabled"), read_words(t, "observed_keys")) {
        (Some(enabled), Some(observed_keys)) => Some(
            DeviceRecord {
                slug,
                name,
                unique_id,
                bus,
                vendor,
                product,
                version,
                physical_path,
                capability_fingerprint,
                capability_tag,
                enabled,
                observed_keys,
            },
        ),
        _ => None,
    }
}

/// The records inside an option.
pub open spec fn opt_records(o: Option<Vec<DeviceRecord>>) -> Option<Seq<RecordView>> {
    match o {
        Some(v) => Some(records(v@)),
        None => None,
    }
}

fn decode_records(v: &toml::Value) -> (out: Option<Vec<DeviceRecord>>)
    ensures
        opt_records(out) == records_value(toml_tree(*v)),
{
    let items = match toml_as_list(v) {
        Some(items) => items,
        None => {
            return None;
        },
    };
    let ghost all = toml_trees(items@);
    let mut out: Vec<DeviceRecord> = Vec::new();
    let mut i: usize = 0;
    while i < items.len()
        invariant
            all == toml_trees(items@),
            toml_tree(*v).list() == Some(all),
            i <= items@.len(),
            out@.len() == i,
            forall|j: int| 0 <= j < i ==> record_value(#[trigger] all[j]) == Some(out@[j]@),
        decreases items@.len() - i,
    {
        assert(all[i as int] == toml_tree(items@[i as int]));
        match decode_record(&items[i]) {
            Some(r) => {
                out.push(r);
            },
            None => {
                return None;
            },
        }
        i += 1;
    }
    assert(records(out@) =~= all.map_values(|t: TomlTree| record_value(t)->0));
    Some(out)
}

/// The records in a document that has been read.
pub fn decode_database(t: &toml::map::Map<String, toml::Value>) -> (out: Option<Vec<DeviceRecord>>)
    ensures
        opt_records(out) == database_of(entries(*t)),
{
    if !only_key(t, "SchemaV1") {
        return None;
    }
    let body = match table_get(t, "SchemaV1") {
        Some(v) => match toml_as_table(v) {
            Some(body) => body,
            None => {
                return None;
            },
        },
        None => {
            return None;
        },
    };
    if !only_key(body, "devices") {
        return None;
    }
    match table_get(body, "devices") {
        Some(v) => decode_records(v),
        None => {
            let none: Vec<DeviceRecord> = Vec::new();
            assert(records(none@) =~= Seq::<RecordView>::empty());
            Some(none)
        },
    }
}

fn bad_field(t: &toml::map::Map<String, toml::Value>) -> (out: Option<&'static str>)
    ensures
        match out {
            Some(k) => first_bad_field(entries(*t)) == Some(k@),
            None => first_bad_field(entries(*t)) is None,
        },
{
    if !matches!(read_text(t, "slug"), Some(Some(_))) {
        Some("slug")
    } else if !matches!(read_text(t, "name"), Some(Some(_))) {
        Some("name")
    } else if read_text(t, "unique_id").is_none() {
        Some("unique_id")
    } else if read_word(t, "bus").is_none() {
        Some("bus")
    } else if read_word(t, "vendor").is_none() {
        Some("vendor")
    } else if read_word(t, "product").is_none() {
        Some("product")
    } else if read_word(t, "version").is_none() {
        Some("version")
    } else if read_text(t, "physical_path").is_none() {
        Some("physical_path")
    } else if read_text(t, "capability_fingerprint").is_none() {
        Some("capability_fingerprint")
    } else if read_text(t, "capability_tag").is_none() {
        Some("capability_tag")
    } else if read_bool(t, "enabled").is_none() {
        Some("enabled")
    } else if read_words(t, "observed_keys").is_none() {
        Some("observed_keys")
    } else {
        None
    }
}

fn explain_record(v: &toml::Value) -> (out: String)
    ensures
        out@ == record_fault(toml_tree(*v)),
{
    let t = match toml_as_table(v) {
        Some(t) => t,
        None => {
            return "not a table".to_owned();
        },
    };
    match bad_field(t) {
        Some(k) => {
            let mut out: String = if table_get(t, k).is_some() {
                "invalid field ".to_owned()
            } else {
                "missing field ".to_owned()
            };
            out.append(k);
            out
        },
        None => "unknown field".to_owned(),
    }
}

fn explain_records(items: &Vec<toml::Value>) -> (out: String)
    ensures
        out@ == records_fault(toml_trees(items@), 0),
{
    let ghost all = toml_trees(items@);
    let mut i: usize = 0;
    while i < items.len()
        invariant
            all == toml_trees(items@),
            i <= items@.len(),
            records_fault(all, 0) == records_fault(all, i as nat),
        decreases items@.len() - i,
    {
        assert(all[i as int] == toml_tree(items@[i as int]));
        if decode_record(&items[i]).is_none() {
            let mut out: String = "device ".to_owned();
            out.append(decimal_text(i as u128 + 1).as_str());
            out.append(": ");
            out.append(explain_record(&items[i]).as_str());
            return out;
        }
        i += 1;
    }
    "".to_owned()
}

/// Why a document that has been read is no database.
pub fn explain(t: &toml::map::Map<String, toml::Value>) -> (out: String)
    ensures
        out@ == document_fault(entries(*t)),
{
    let body = match table_get(t, "SchemaV1") {
        Some(v) => if only_key(t, "SchemaV1") {
            match toml_as_table(v) {
                Some(body) => body,
                None => {
                    return "SchemaV1: not a table".to_owned();
                },
            }
        } else {
            return UNKNOWN_VERSION.to_owned();
        },
        None => {
            return UNKNOWN_VERSION.to_owned();
        },
    };
    match table_get(body, "devices") {
        Some(v) => if only_key(body, "devices") {
            match toml_as_list(v) {
                Some(items) => explain_records(items),
                None => "devices: not a list".to_owned(),
            }
        } else {
            "SchemaV1: unknown field".to_owned()
        },
        None => "SchemaV1: unknown field".to_owned(),
    }
}

/// What goes wrong with the database file.
#[derive(Debug, PartialEq, Eq)]
pub enum DbError {
    Read { path: String, reason: String },
    Write { path: String, reason: String },
    Parse { path: String, reason: String },
}

/// The values in a [`DbError`].
pub enum DbErrorView {
    Read { path: Seq<char>, reason: Seq<char> },
    Write { path: Seq<char>, reason: Seq<char> },
    Parse { path: Seq<char>, reason: Seq<char> },
}

impl View for DbError {
    type V = DbErrorView;

    open spec fn view(&self) -> DbErrorView {
        match *self {
            DbError::Read { path, reason } => DbErrorView::Read { path: path@, reason: reason@ },
            DbError::Write { path, reason } => DbErrorView::Write { path: path@, reason: reason@ },
            DbError::Parse { path, reason } => DbErrorView::Parse { path: path@, reason: reason@ },
        }
    }
}

impl DbError {
    /// The error in words.
    pub fn message(&self) -> (out: String)
        ensures
            out@ == match self@ {
                DbErrorView::Read { path, reason } => "failed to read database "@ + path + ": "@
                    + reason,
                DbErrorView::Write { path, reason } => "failed to write database "@ + path + ": "@
                    + reason,
                DbErrorView::Parse { path, reason } => "failed to parse database "@ + path + ": "@
                    + reason,
            },
    {
        let (head, path, reason) = match self {
            DbError::Read { path, reason } => ("failed to read database ", path, reason),
            DbError::Write { path, reason } => ("failed to write database ", path, reason),
            DbError::Parse { path, reason } => ("failed to parse database ", path, reason),
        };
        let mut out: String = head.to_owned();
        out.append(path.as_str());
        out.append(": ");
        out.append(reason.as_str());
        out
    }
}

/// The reason given for a document of an unknown version, or of none.
pub const UNKNOWN_VERSION: &'static str = "not a device database of a known version";

/// What reading the database file came to.
#[derive(Debug)]
pub enum FileRead {
    Text(String),
    /// There is no such file.
    Missing,
    Failed { reason: String },
}

/// The database in a text, or why there is none.
pub open spec fn parsed(text: Seq<char>) -> Result<Seq<RecordView>, Seq<char>> {
    match toml_document(text) {
        Ok(m) => match database_of(m) {
            Some(devs) => Ok(devs),
            None => Err(document_fault(m)),
        },
        Err(e) => Err(e),
    }
}

/// The database in the file `path`, which was read as `file`.
pub open spec fn loaded(path: Seq<char>, file: FileRead) -> Result<Seq<RecordView>, DbErrorView> {
    match file {
        FileRead::Missing => Ok(Seq::empty()),
        FileRead::Failed { reason } => Err(DbErrorView::Read { path, reason: reason@ }),
        FileRead::Text(text) => match parsed(text@) {
            Ok(devs) => Ok(devs),
            Err(reason) => Err(DbErrorView::Parse { path, reason }),
        },
    }
}

impl Database {
    /// The database in the file `path`, which was read as `file`. A missing
    /// file yields an empty database (first run); other errors propagate.
    pub fn load(path: &str, file: FileRead) -> (res: Result<Self, DbError>)
        ensures
            match res {
                Ok(db) => loaded(path@, file) == Ok::<Seq<RecordView>, DbErrorView>(db@),
                Err(e) => loaded(path@, file) == Err::<Seq<RecordView>, DbErrorView>(e@),
            },
    {
        match file {
            FileRead::Missing => Ok(Database::default()),
            FileRead::Failed { reason } => Err(DbError::Read { path: path.to_owned(), reason }),
            FileRead::Text(text) => match toml_parse(text.as_str()) {
                Ok(t) => match decode_database(&t) {
                    Some(devices) => Ok(Database { devices }),
                    None => Err(
                        DbError::Parse {
                            path: path.to_owned(),
                            reason: explain(&t),
                        },
                    ),
                },
                Err(reason) => Err(DbError::Parse { path: path.to_owned(), reason }),
            },
        }
    }

    /// The text of the database file. Loading it gives this database back.
    pub fn to_toml(&self) -> (out: String)
        ensures
            out@ == toml_text(database_table(self@)),
            toml_document(out@) == found(database_table(self@)),
            parsed(out@) == Ok::<Seq<RecordView>, Seq<char>>(self@),
    {
        let ghost f = |r: RecordView| TomlTree::Table(record_table(r));
        let mut items: Vec<toml::Value> = Vec::new();
        let mut i: usize = 0;
        while i < self.devices.len()
            invariant
                i <= self.devices@.len(),
                items@.len() == i,
                forall|j: int|
                    0 <= j < i ==> toml_tree(#[trigger] items@[j]) == TomlTree::Table(
                        record_table(self.devices@[j]@),
                    ),
            decreases self.devices@.len() - i,
        {
            items.push(encode_record(&self.devices[i]));
            i += 1;
        }
        assert(toml_trees(items@) =~= self@.map_values(f));
        let mut body = table_new();
        table_insert(&mut body, "devices".to_owned(), toml_list(items));
        let mut t = table_new();
        table_insert(&mut t, "SchemaV1".to_owned(), toml_table(body));
        proof {
            assert(entries(t) == database_table(self@));
            lemma_database_ledger(self@);
            lemma_database_round_trip(self@);
        }
        toml_print(&t)
    }

    /// Start to atomically replace the on-disk file with the current state.
    /// Writes to a sibling temp file, fsyncs it, then renames over the
    /// target. A crash either leaves the previous file untouched or
    /// presents the new one, never a partial write.
    ///
    /// `dir`, `temp` and `target` are the paths, as shown in errors.
    pub fn save_atomic(&self, dir: String, temp: String, target: String) -> (out: Save)
        ensures
            out.step == SaveStep::MakeDir,
            parsed(out.text@) == Ok::<Seq<RecordView>, Seq<char>>(self@),
            out.text@ == toml_text(database_table(self@)),
            toml_document(out.text@) == found(database_table(self@)),
            out.dir == dir,
            out.temp == temp,
            out.target == target,
            out.error is None,
    {
        Save { step: SaveStep::MakeDir, text: self.to_toml(), dir, temp, target, error: None }
    }
}

/// The name of the temp file next to the file called `file_name`.
pub open spec fn temp_name_text(file_name: Option<&str>, pid: u32, nonce: u128) -> Seq<char> {
    let base = match file_name {
        Some(n) => n@,
        None => "db.toml"@,
    };
    "."@ + base + ".tmp."@ + decimal(pid as nat) + "."@ + decimal(nonce as nat)
}

/// The name of the temp file next to the file called `file_name`, for the process
/// `pid`.
pub fn temp_name(file_name: Option<&str>, pid: u32, nonce: u128) -> (out: String)
    ensures
        out@ == temp_name_text(file_name, pid, nonce),
{
    let mut out: String = ".".to_owned();
    match file_name {
        Some(n) => {
            out.append(n);
        },
        None => {
            out.append("db.toml");
        },
    }
    out.append(".tmp.");
    out.append(decimal_text(pid as u128).as_str());
    out.append(".");
    out.append(decimal_text(nonce).as_str());
    out
}

/// The next thing to do while saving.
#[derive(Debug, Clone, Copy, PartialEq, Eq, Structural)]
pub enum SaveStep {
    /// Create the directory and its parents.
    MakeDir,
    /// Create the temp file, or empty it.
    CreateTemp,
    /// Write the text to the temp file.
    WriteTemp,
    /// Flush the temp file to disk.
    SyncTemp,
    /// Rename the temp file to the target.
    Rename,
    /// Remove the temp file, so that none is left behind.
    RemoveTemp,
    /// The target holds the text.
    Saved,
    /// Nothing more to do; the error says why.
    Failed,
}

/// What follows a step that succeeded or failed.
pub open spec fn next_step(step: SaveStep, ok: bool) -> SaveStep {
    match step {
        SaveStep::MakeDir => if ok {
            SaveStep::CreateTemp
        } else {
            SaveStep::Failed
        },
        SaveStep::CreateTemp => if ok {
            SaveStep::WriteTemp
        } else {
            SaveStep::Failed
        },
        SaveStep::WriteTemp => if ok {
            SaveStep::SyncTemp
        } else {
            SaveStep::Failed
        },
        SaveStep::SyncTemp => if ok {
            SaveStep::Rename
        } else {
            SaveStep::Failed
        },
        SaveStep::Rename => if ok {
            SaveStep::Saved
        } else {
            SaveStep::RemoveTemp
        },
        SaveStep::RemoveTemp => SaveStep::Failed,
        SaveStep::Saved => SaveStep::Saved,
        SaveStep::Failed => SaveStep::Failed,
    }
}

/// A save under way.
#[derive(Debug)]
pub struct Save {
    pub step: SaveStep,
    pub text: String,
    pub dir: String,
    pub temp: String,
    pub target: String,
    /// The failure that ended it.
    pub error: Option<DbError>,
}

/// The error inside an option.
pub open spec fn opt_error(e: Option<DbError>) -> Option<DbErrorView> {
    match e {
        Some(e) => Some(e@),
        None => None,
    }
}

impl Save {
    /// The path that the current step works on.
    pub open spec fn path(self) -> Seq<char> {
        match self.step {
            SaveStep::MakeDir => self.dir@,
            SaveStep::Rename => self.target@,
            _ => self.temp@,
        }
    }

    /// Takes note of how the current step went. The first failure counts; that
    /// of the cleanup does not.
    pub fn advance(&mut self, done: Result<(), String>)
        ensures
            final(self).step == next_step(old(self).step, done is Ok),
            final(self).text == old(self).text,
            final(self).dir == old(self).dir,
            final(self).temp == old(self).temp,
            final(self).target == old(self).target,
            opt_error(final(self).error) == match done {
                Err(reason) if old(self).step !is RemoveTemp && old(self).step !is Saved && old(
                    self,
                ).step !is Failed => Some(
                    DbErrorView::Write { path: old(self).path(), reason: reason@ },
                ),
                _ => opt_error(old(self).error),
            },
    {
        let ok = done.is_ok();
        if let Err(reason) = done {
            match self.step {
                SaveStep::MakeDir => {
                    self.error = Some(DbError::Write { path: self.dir.clone(), reason });
                },
                SaveStep::CreateTemp | SaveStep::WriteTemp | SaveStep::SyncTemp => {
                    self.error = Some(DbError::Write { path: self.temp.clone(), reason });
                },
                SaveStep::Rename => {
                    self.error = Some(DbError::Write { path: self.target.clone(), reason });
                },
                _ => {},
            }
        }
        self.step = match self.step {
            SaveStep::MakeDir => if ok {
                SaveStep::CreateTemp
            } else {
                SaveStep::Failed
            },
            SaveStep::CreateTemp => if ok {
                SaveStep::WriteTemp
            } else {
                SaveStep::Failed
            },
            SaveStep::WriteTemp => if ok {
                SaveStep::SyncTemp
            } else {
                SaveStep::Failed
            },
            SaveStep::SyncTemp => if ok {
                SaveStep::Rename
            } else {
                SaveStep::Failed
            },
            SaveStep::Rename => if ok {
                SaveStep::Saved
            } else {
                SaveStep::RemoveTemp
            },
            SaveStep::RemoveTemp => SaveStep::Failed,
            SaveStep::Saved => SaveStep::Saved,
            SaveStep::Failed => SaveStep::Failed,
        };
    }
}

/// The two files that a save touches, by their content.
pub struct Disk {
    pub target: Option<Seq<char>>,
    pub temp: Option<Seq<char>>,
}

/// How a step went on disk. What a failed write leaves in the temp file is
/// anything.
pub struct Outcome {
    pub ok: bool,
    pub torn: Option<Seq<char>>,
}

/// The disk after a step.
pub open spec fn disk_after(d: Disk, text: Seq<char>, step: SaveStep, o: Outcome) -> Disk {
    match step {
        SaveStep::CreateTemp => Disk {
            temp: if o.ok {
                Some(Seq::empty())
            } else {
                o.torn
            },
            ..d
        },
        SaveStep::WriteTemp => Disk {
            temp: if o.ok {
                Some(text)
            } else {
                o.torn
            },
            ..d
        },
        SaveStep::Rename => if o.ok {
            Disk { target: d.temp, temp: None }
        } else {
            d
        },
        SaveStep::RemoveTemp => if o.ok {
            Disk { temp: None, ..d }
        } else {
            d
        },
        _ => d,
    }
}

/// Step and disk after some steps of a save, whatever their outcomes.
pub open spec fn save_run(d: Disk, text: Seq<char>, outcomes: Seq<Outcome>) -> (SaveStep, Disk)
    decreases outcomes.len(),
{
    if outcomes.len() == 0 {
        (SaveStep::MakeDir, d)
    } else {
        let (step, now) = save_run(d, text, outcomes.drop_last());
        let o = outcomes.last();
        (next_step(step, o.ok), disk_after(now, text, step, o))
    }
}

/// Saving is atomic: wherever it stops, the target holds either what it held
/// before or the whole new text, and it holds the new text once it is saved.
pub proof fn lemma_save_atomic(d: Disk, text: Seq<char>, outcomes: Seq<Outcome>)
    ensures
        ({
            let (step, now) = save_run(d, text, outcomes);
            &&& step is Saved ==> now.target == Some(text)
            &&& step !is Saved ==> now.target == d.target
            &&& step is SyncTemp || step is Rename ==> now.temp == Some(text)
        }),
    decreases outcomes.len(),
{
    if outcomes.len() > 0 {
        lemma_save_atomic(d, text, outcomes.drop_last());
    }
}

/// A rename that fails leaves no temp file: once the temp file is removed, the
/// save has failed, there is no temp file, and the target holds what it held.
pub proof fn lemma_cleanup_leaves_no_temp(d: Disk, text: Seq<char>, outcomes: Seq<Outcome>)
    requires
        outcomes.len() > 0,
        save_run(d, text, outcomes.drop_last()).0 is RemoveTemp,
        outcomes.last().ok,
    ensures
        save_run(d, text, outcomes).0 is Failed,
        save_run(d, text, outcomes).1.temp is None,
        save_run(d, text, outcomes).1.target == d.target,
{
    lemma_save_atomic(d, text, outcomes);
}

/// A save that meets no error is done after five steps and leaves no temp file.
pub proof fn lemma_save_completes(d: Disk, text: Seq<char>, outcomes: Seq<Outcome>)
    requires
        outcomes.len() >= 5,
        forall|i: int| 0 <= i < outcomes.len() ==> (#[trigger] outcomes[i]).ok,
    ensures
        save_run(d, text, outcomes).0 is Saved,
        save_run(d, text, outcomes).1.temp is None,
    decreases outcomes.len(),
{
    if outcomes.len() > 5 {
        lemma_save_completes(d, text, outcomes.drop_last());
    } else {
        reveal_with_fuel(save_run, 6);
        let a = outcomes.drop_last();
        let b = a.drop_last();
        let c = b.drop_last();
        let e = c.drop_last();
        assert(e.drop_last().len() == 0);
        assert(outcomes.last() == outcomes[4] && a.last() == outcomes[3] && b.last() == outcomes[2]
            && c.last() == outcomes[1] && e.last() == outcomes[0]);
    }
}

} // verus!
