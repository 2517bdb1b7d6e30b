//! The database file: what is in it, and how it is replaced.

use crate::db::{records, Database, DeviceRecord, RecordView};
use crate::store::{
    database_of, database_table, decode_database, explain, record_field, record_of, record_table,
    record_value, records_value, temp_name, text_field, word_field, word_value, words_field,
    DbError, FileRead, Save, SaveStep,
};
use crate::text::decimal;
use crate::toml_tree::{entries, toml_document, TomlTree};
use vstd::prelude::*;
use vstd::string::*;

verus! {

/// Whether a table says `s` under `key`, or is silent about it where there is
/// nothing to say.
pub open spec fn text_at(m: Map<Seq<char>, TomlTree>, key: Seq<char>, s: Option<Seq<char>>) -> bool {
    match s {
        Some(t) => m.contains_key(key) && m[key] == TomlTree::Text(t),
        None => !m.contains_key(key),
    }
}

/// Whether a table says `n` under `key`, or is silent about it and `n` is 0.
pub open spec fn number_at(m: Map<Seq<char>, TomlTree>, key: Seq<char>, n: u16) -> bool {
    if m.contains_key(key) {
        m[key] is Int && m[key]->Int_0 == n
    } else {
        n == 0
    }
}

/// Whether a table lists `codes` under `key`, or is silent about it and there are
/// none.
pub open spec fn codes_at(m: Map<Seq<char>, TomlTree>, key: Seq<char>, codes: Seq<u16>) -> bool {
    if m.contains_key(key) {
        m[key] matches TomlTree::List(items) && items.len() == codes.len() && forall|i: int|
            0 <= i < codes.len() ==> (#[trigger] items[i]) is Int && items[i]->Int_0 == codes[i]
    } else {
        codes.len() == 0
    }
}

/// The names that the members of a record have.
pub open spec fn is_member(k: Seq<char>) -> bool {
    ||| k == "slug"@ || k == "name"@ || k == "unique_id"@ || k == "physical_path"@
    ||| k == "bus"@ || k == "vendor"@ || k == "product"@ || k == "version"@
    ||| k == "capability_fingerprint"@ || k == "capability_tag"@
    ||| k == "enabled"@ || k == "observed_keys"@
}

/// Whether a table holds a record: each value under its own name, and nothing
/// else.
pub open spec fn holds_record(m: Map<Seq<char>, TomlTree>, r: RecordView) -> bool {
    &&& text_at(m, "slug"@, Some(r.slug))
    &&& text_at(m, "name"@, Some(r.name))
    &&& text_at(m, "unique_id"@, r.unique_id)
    &&& number_at(m, "bus"@, r.bus)
    &&& number_at(m, "vendor"@, r.vendor)
    &&& number_at(m, "product"@, r.product)
    &&& number_at(m, "version"@, r.version)
    &&& text_at(m, "physical_path"@, r.physical_path)
    &&& text_at(m, "capability_fingerprint"@, r.capability_fingerprint)
    &&& text_at(m, "capability_tag"@, r.capability_tag)
    &&& if m.contains_key("enabled"@) {
        m["enabled"@] == TomlTree::Bool(r.enabled)
    } else {
        !r.enabled
    }
    &&& codes_at(m, "observed_keys"@, r.observed_keys)
    &&& forall|k: Seq<char>| #[trigger] m.contains_key(k) ==> is_member(k)
}

/// Whether a document holds a database: the records in order, as the list
/// `devices` of the one member `SchemaV1`, and nothing else.
pub open spec fn holds_database(m: Map<Seq<char>, TomlTree>, devs: Seq<RecordView>) -> bool {
    &&& m.contains_key("SchemaV1"@)
    &&& forall|k: Seq<char>| #[trigger] m.contains_key(k) ==> k == "SchemaV1"@
    &&& m["SchemaV1"@] matches TomlTree::Table(body)
    &&& forall|k: Seq<char>| #[trigger] body.contains_key(k) ==> k == "devices"@
    &&& if body.contains_key("devices"@) {
        body["devices"@] matches TomlTree::List(items) && items.len() == devs.len() && forall|
            i: int,
        |
            0 <= i < devs.len() ==> (#[trigger] items[i]) is Table && holds_record(
                items[i]->Table_0,
                devs[i],
            )
    } else {
        devs.len() == 0
    }
}

proof fn lemma_codes_at(m: Map<Seq<char>, TomlTree>, key: Seq<char>, codes: Seq<u16>)
    ensures
        words_field(m, key) == Some(codes) <==> codes_at(m, key, codes),
{
    if m.contains_key(key) {
        if let TomlTree::List(items) = m[key] {
            if codes_at(m, key, codes) {
                assert forall|i: int| 0 <= i < items.len() implies word_value(#[trigger] items[i])
                    == Some(codes[i]) by {}
                assert(items.map_values(|t: TomlTree| word_value(t)->0) =~= codes);
            }
            if words_field(m, key) == Some(codes) {
                let read = items.map_values(|t: TomlTree| word_value(t)->0);
                assert(codes == read);
                assert forall|i: int| 0 <= i < codes.len() implies (#[trigger] items[i]) is Int
                    && items[i]->Int_0 == codes[i] by {
                    assert(word_value(items[i]) is Some);
                    assert(read[i] == word_value(items[i])->0);
                }
            }
        }
    } else if codes.len() == 0 {
        assert(codes =~= Seq::<u16>::empty());
    }
}

proof fn lemma_number_at(m: Map<Seq<char>, TomlTree>, key: Seq<char>, n: u16)
    ensures
        word_field(m, key) == Some(n) <==> number_at(m, key, n),
{
}

/// The file's members mean what they are called: a table is read as a record
/// exactly if it holds it.
pub proof fn law_record_is_read(m: Map<Seq<char>, TomlTree>, r: RecordView)
    ensures
        record_of(m) == Some(r) <==> holds_record(m, r),
{
    lemma_codes_at(m, "observed_keys"@, r.observed_keys);
    lemma_number_at(m, "bus"@, r.bus);
    lemma_number_at(m, "vendor"@, r.vendor);
    lemma_number_at(m, "product"@, r.product);
    lemma_number_at(m, "version"@, r.version);
    assert forall|k: Seq<char>| #[trigger] record_field(k) == is_member(k) by {}
    assert((forall|k: Seq<char>| #[trigger] m.contains_key(k) ==> record_field(k)) <==> (forall|
        k: Seq<char>,
    | #[trigger] m.contains_key(k) ==> is_member(k))) by {
        if forall|k: Seq<char>| #[trigger] m.contains_key(k) ==> record_field(k) {
            assert forall|k: Seq<char>| #[trigger] m.contains_key(k) implies is_member(k) by {
                assert(record_field(k));
            }
        }
        if forall|k: Seq<char>| #[trigger] m.contains_key(k) ==> is_member(k) {
            assert forall|k: Seq<char>| #[trigger] m.contains_key(k) implies record_field(k) by {
                assert(is_member(k));
            }
        }
    }
    assert(text_field(m, "slug"@) == Some(Some(r.slug)) <==> text_at(m, "slug"@, Some(r.slug)));
    assert(text_field(m, "name"@) == Some(Some(r.name)) <==> text_at(m, "name"@, Some(r.name)));
    assert(text_field(m, "unique_id"@) == Some(r.unique_id) <==> text_at(
        m,
        "unique_id"@,
        r.unique_id,
    ));
    assert(text_field(m, "physical_path"@) == Some(r.physical_path) <==> text_at(
        m,
        "physical_path"@,
        r.physical_path,
    ));
    assert(text_field(m, "capability_fingerprint"@) == Some(r.capability_fingerprint) <==> text_at(
        m,
        "capability_fingerprint"@,
        r.capability_fingerprint,
    ));
    assert(text_field(m, "capability_tag"@) == Some(r.capability_tag) <==> text_at(
        m,
        "capability_tag"@,
        r.capability_tag,
    ));
}

/// A document is read as a database exactly if it holds it.
pub proof fn law_database_is_read(m: Map<Seq<char>, TomlTree>, devs: Seq<RecordView>)
    ensures
        database_of(m) == Some(devs) <==> holds_database(m, devs),
{
    if m.contains_key("SchemaV1"@) {
        if let TomlTree::Table(body) = m["SchemaV1"@] {
            if body.contains_key("devices"@) {
                if let TomlTree::List(items) = body["devices"@] {
                    lemma_records(body["devices"@], items, devs);
                }
            } else if devs.len() == 0 {
                assert(devs =~= Seq::<RecordView>::empty());
            }
        }
    }
}

proof fn lemma_records(v: TomlTree, items: Seq<TomlTree>, devs: Seq<RecordView>)
    requires
        v == TomlTree::List(items),
    ensures
        records_value(v) == Some(devs) <==> items.len() == devs.len() && forall|i: int|
            0 <= i < devs.len() ==> (#[trigger] items[i]) is Table && holds_record(
                items[i]->Table_0,
                devs[i],
            ),
{
    assert forall|i: int, r: RecordView|
        0 <= i < items.len() implies (#[trigger] record_value(items[i]) == Some(r) <==> (
    items[i] is Table && #[trigger] holds_record(items[i]->Table_0, r))) by {
        if items[i] is Table {
            law_record_is_read(items[i]->Table_0, r);
        }
    }
    let read = items.map_values(|t: TomlTree| record_value(t)->0);
    if records_value(v) == Some(devs) {
        assert(devs == read);
        assert forall|i: int| 0 <= i < devs.len() implies (#[trigger] items[i]) is Table
            && holds_record(items[i]->Table_0, devs[i]) by {
            assert(record_value(items[i]) is Some);
            assert(read[i] == record_value(items[i])->0);
            assert(record_value(items[i]) == Some(devs[i]));
            if items[i] is Table {
                law_record_is_read(items[i]->Table_0, devs[i]);
            }
        }
    }
    if items.len() == devs.len() && forall|i: int|
        0 <= i < devs.len() ==> (#[trigger] items[i]) is Table && holds_record(
            items[i]->Table_0,
            devs[i],
        ) {
        assert forall|i: int| 0 <= i < items.len() implies record_value(#[trigger] items[i])
            == Some(devs[i]) by {
            law_record_is_read(items[i]->Table_0, devs[i]);
        }
        assert(read =~= devs);
    }
}

/// Loading: no file is an empty database, a file that cannot be read is an error
/// with the reason, and so is a text that is no TOML. Any other file gives the
/// database that it holds, and an error if it holds none.
pub proof fn law_load(path: &str, file: FileRead, res: Result<Database, DbError>)
    requires
        call_ensures(Database::load, (path, file), res),
    ensures
        match file {
            FileRead::Missing => res matches Ok(db) && db@.len() == 0,
            FileRead::Failed { reason } => res matches Err(DbError::Read { path: p, reason: q })
                && p@ == path@ && q@ == reason@,
            FileRead::Text(text) => match toml_document(text@) {
                Ok(m) => match res {
                    Ok(db) => holds_database(m, db@),
                    Err(e) => {
                        &&& e matches DbError::Parse { path: p, .. } && p@ == path@
                        &&& forall|devs: Seq<RecordView>| !#[trigger] holds_database(m, devs)
                    },
                },
                Err(reason) => res matches Err(DbError::Parse { path: p, reason: q }) && p@ == path@
                    && q@ == reason,
            },
        },
{
    if let Err(e) = res {
        assert(e@ == crate::store::loaded(path@, file)->Err_0);
    }
    if let FileRead::Text(text) = file {
        if let Ok(m) = toml_document(text@) {
            match res {
                Ok(db) => {
                    law_database_is_read(m, db@);
                },
                Err(e) => {
                    assert forall|devs: Seq<RecordView>| !#[trigger] holds_database(m, devs) by {
                        law_database_is_read(m, devs);
                    }
                },
            }
        }
    }
}

/// A document that was read gives the database that it holds, and none otherwise.
pub proof fn law_decode(
    t: toml::map::Map<String, toml::Value>,
    out: Option<Vec<DeviceRecord>>,
)
    requires
        call_ensures(decode_database, (&t,), out),
    ensures
        match out {
            Some(devs) => holds_database(entries(t), records(devs@)),
            None => forall|devs: Seq<RecordView>| !#[trigger] holds_database(entries(t), devs),
        },
{
    match out {
        Some(devs) => {
            law_database_is_read(entries(t), records(devs@));
        },
        None => {
            assert forall|devs: Seq<RecordView>| !#[trigger] holds_database(entries(t), devs) by {
                law_database_is_read(entries(t), devs);
            }
        },
    }
}

/// A file of another version, or of none, is refused as such; and of a list of
/// devices the first that is no record is named by its number.
pub proof fn law_explain(t: toml::map::Map<String, toml::Value>, out: String, i: int)
    requires
        call_ensures(explain, (&t,), out),
    ensures
        ({
            let m = entries(t);
            let known = m.contains_key("SchemaV1"@) && forall|k: Seq<char>| #[trigger]
                m.contains_key(k) ==> k == "SchemaV1"@;
            &&& !known ==> out@ == "not a device database of a known version"@
            &&& known && first_bad(m["SchemaV1"@], i) ==> out@.take(
                ("device "@ + decimal((i + 1) as nat) + ": "@).len() as int,
            ) == "device "@ + decimal((i + 1) as nat) + ": "@
        }),
{
    let m = entries(t);
    if first_bad(m["SchemaV1"@], i) {
        let items = m["SchemaV1"@]->Table_0["devices"@]->List_0;
        assert forall|k: int, r: RecordView|
            0 <= k < items.len() implies (#[trigger] record_value(items[k]) == Some(r) <==> (
        items[k] is Table && #[trigger] holds_record(items[k]->Table_0, r))) by {
            if items[k] is Table {
                law_record_is_read(items[k]->Table_0, r);
            }
        }
        assert(record_value(items[i]) is None) by {
            if record_value(items[i]) is Some {
                let r = record_value(items[i])->0;
                law_record_is_read(items[i]->Table_0, r);
                assert(holds_record(items[i]->Table_0, r));
            }
        }
        assert forall|k: int| 0 <= k < i implies record_value(#[trigger] items[k]) is Some by {
            let r = choose|r: RecordView| #[trigger] holds_record(items[k]->Table_0, r);
            law_record_is_read(items[k]->Table_0, r);
        }
        lemma_fault_at(items, 0, i as nat);
        let head = "device "@ + decimal((i + 1) as nat) + ": "@;
        let rest = crate::store::record_fault(items[i]);
        assert((head + rest).take(head.len() as int) =~= head);
    }
}

/// Whether the `i`th of the listed devices is the first that is no record.
pub open spec fn first_bad(v: TomlTree, i: int) -> bool {
    &&& v matches TomlTree::Table(body)
    &&& body.contains_key("devices"@)
    &&& forall|k: Seq<char>| #[trigger] body.contains_key(k) ==> k == "devices"@
    &&& body["devices"@] matches TomlTree::List(items)
    &&& 0 <= i < items.len()
    &&& items[i] is Table ==> forall|r: RecordView| !#[trigger] holds_record(items[i]->Table_0, r)
    &&& forall|k: int|
        0 <= k < i ==> (#[trigger] items[k]) is Table && exists|r: RecordView| #[trigger]
            holds_record(items[k]->Table_0, r)
}

proof fn lemma_fault_at(items: Seq<TomlTree>, from: nat, i: nat)
    requires
        from <= i < items.len(),
        record_value(items[i as int]) is None,
        forall|k: int| from <= k < i ==> record_value(#[trigger] items[k]) is Some,
    ensures
        crate::store::records_fault(items, from) == "device "@ + decimal(i + 1) + ": "@
            + crate::store::record_fault(items[i as int]),
    decreases i - from,
{
    if from < i {
        assert(record_value(items[from as int]) is Some);
        lemma_fault_at(items, from + 1, i);
    }
}

/// The file written for a database holds it, with every number under its own name
/// and nothing written of what is not known.
pub proof fn law_to_toml(db: Database, out: String)
    requires
        call_ensures(Database::to_toml, (&db,), out),
    ensures
        toml_document(out@) matches Ok(m) && holds_database(m, db@) && (m["SchemaV1"@]
            matches TomlTree::Table(body) && body.contains_key("devices"@) && (
        body["devices"@] matches TomlTree::List(items) && forall|i: int|
            0 <= i < items.len() ==> written_in_full((#[trigger] items[i])->Table_0))),
{
    crate::store::lemma_database_round_trip(db@);
    law_database_is_read(database_table(db@), db@);
    let items = db@.map_values(|r: RecordView| TomlTree::Table(record_table(r)));
    assert forall|i: int| 0 <= i < items.len() implies written_in_full(
        (#[trigger] items[i])->Table_0,
    ) by {
        law_record_is_written(db@[i]);
    }
}

/// Whether a table has the members that are written even if there is nothing to
/// tell.
pub open spec fn written_in_full(m: Map<Seq<char>, TomlTree>) -> bool {
    &&& m.contains_key("bus"@)
    &&& m.contains_key("vendor"@)
    &&& m.contains_key("product"@)
    &&& m.contains_key("version"@)
    &&& m.contains_key("enabled"@)
    &&& m.contains_key("observed_keys"@)
}

/// A record is written in full: the numbers also where they are 0, and the list of
/// keys also where it is empty.
pub proof fn law_record_is_written(r: RecordView)
    ensures
        ({
            let m = record_table(r);
            &&& holds_record(m, r)
            &&& m.contains_key("bus"@) && m["bus"@] == TomlTree::Int(r.bus as i64)
            &&& m.contains_key("vendor"@) && m["vendor"@] == TomlTree::Int(r.vendor as i64)
            &&& m.contains_key("product"@) && m["product"@] == TomlTree::Int(r.product as i64)
            &&& m.contains_key("version"@) && m["version"@] == TomlTree::Int(r.version as i64)
            &&& m.contains_key("enabled"@) && m["enabled"@] == TomlTree::Bool(r.enabled)
            &&& m.contains_key("observed_keys"@)
        }),
{
    crate::store::lemma_record_round_trip(r);
    crate::store::lemma_keys();
    law_record_is_read(record_table(r), r);
}

/// A save begins with the directory, carries the text of the database, and keeps
/// its three paths apart.
pub proof fn law_save_begins(db: Database, dir: String, temp: String, target: String, out: Save)
    requires
        call_ensures(Database::save_atomic, (&db, dir, temp, target), out),
    ensures
        out.step is MakeDir,
        out.error is None,
        out.dir@ == dir@,
        out.temp@ == temp@,
        out.target@ == target@,
        toml_document(out.text@) matches Ok(m) && holds_database(m, db@),
{
    law_database_is_read(database_table(db@), db@);
    crate::store::lemma_database_round_trip(db@);
}

/// How far a save has come.
pub open spec fn rank(step: SaveStep) -> int {
    match step {
        SaveStep::MakeDir => 0,
        SaveStep::CreateTemp => 1,
        SaveStep::WriteTemp => 2,
        SaveStep::SyncTemp => 3,
        SaveStep::Rename => 4,
        SaveStep::Saved => 5,
        SaveStep::RemoveTemp => 6,
        SaveStep::Failed => 7,
    }
}

/// A save goes from the directory to the temp file, its content, the flush and the
/// rename, one after the other. A failure before the rename ends it, one of the
/// rename has the temp file removed first; and the error tells the path of the
/// step that failed first.
pub proof fn law_save_advances(save: &mut Save, done: Result<(), String>)
    requires
        call_ensures(Save::advance, (save, done), ()),
    ensures
        ({
            let (before, after) = (old(save).step, final(save).step);
            let ended = before is Saved || before is Failed;
            &&& ended ==> after == before
            &&& done is Ok && rank(before) < 5 ==> rank(after) == rank(before) + 1
            &&& done is Err && rank(before) < 4 ==> after is Failed
            &&& done is Err && before is Rename ==> after is RemoveTemp
            &&& before is RemoveTemp ==> after is Failed
            &&& final(save).text@ == old(save).text@
            &&& final(save).dir@ == old(save).dir@
            &&& final(save).temp@ == old(save).temp@
            &&& final(save).target@ == old(save).target@
            &&& done is Ok || before is RemoveTemp || ended ==> (match old(save).error {
                Some(e) => final(save).error matches Some(f) && f@ == e@,
                None => final(save).error is None,
            })
            &&& done matches Err(reason) ==> before !is RemoveTemp && !ended ==> (final(save).error matches Some(DbError::Write { path, reason: q }) && q@ == reason@ && path@
                == if before is MakeDir {
                old(save).dir@
            } else if before is Rename {
                old(save).target@
            } else {
                old(save).temp@
            })
        }),
{
    if let Some(e) = final(save).error {
        assert(crate::store::opt_error(final(save).error) == Some(e@));
    }
}

/// The temp file lies next to the database under a hidden name, which tells the
/// process and a number of its own.
pub proof fn law_temp_name(name: Option<&str>, pid: u32, nonce: u128, out: String)
    requires
        call_ensures(temp_name, (name, pid, nonce), out),
    ensures
        ({
            let base = match name {
                Some(n) => n@,
                None => "db.toml"@,
            };
            out@ == seq!['.'] + base + ".tmp."@ + decimal(pid as nat) + seq!['.'] + decimal(
                nonce as nat,
            )
        }),
{
    reveal_strlit(".");
    assert("."@ =~= seq!['.']);
}

/// An error tells what failed, the file, and why.
pub proof fn law_error_message(e: DbError, out: String)
    requires
        call_ensures(DbError::message, (&e,), out),
    ensures
        match e {
            DbError::Read { path, reason } => out@ == "failed to read database "@ + path@ + ": "@
                + reason@,
            DbError::Write { path, reason } => out@ == "failed to write database "@ + path@ + ": "@
                + reason@,
            DbError::Parse { path, reason } => out@ == "failed to parse database "@ + path@ + ": "@
                + reason@,
        },
{
}

} // verus!
