use evmqtt_rs::db::{Database, DeviceRecord};
use evmqtt_rs::store::{temp_name, DbError, FileRead, Save, SaveStep, UNKNOWN_VERSION};

fn record(name: &str) -> DeviceRecord {
    DeviceRecord {
        slug: "kbd".to_string(),
        name: name.to_string(),
        unique_id: None,
        bus: 3,
        vendor: 0xffff,
        product: 0,
        version: 1,
        physical_path: Some("usb-0000:00/input0".to_string()),
        capability_fingerprint: Some("35775364e98d7540".to_string()),
        capability_tag: None,
        enabled: true,
        observed_keys: vec![1, 30, 65535],
    }
}

fn load(text: &str) -> Result<Database, DbError> {
    Database::load("db.toml", FileRead::Text(text.to_string()))
}

fn parse_reason(text: &str) -> String {
    match load(text) {
        Err(DbError::Parse { path, reason }) => {
            assert_eq!(path, "db.toml");
            reason
        }
        other => panic!("expected a parse error, got {other:?}"),
    }
}

#[test]
fn file_is_a_versioned_toml_document() {
    let db = Database { devices: vec![record("Keyboard")] };
    let value: toml::Table = toml::from_str(&db.to_toml()).unwrap();
    assert_eq!(value.len(), 1);
    let rec = value["SchemaV1"]["devices"][0].as_table().unwrap();
    assert_eq!(rec["slug"].as_str(), Some("kbd"));
    assert_eq!(rec["name"].as_str(), Some("Keyboard"));
    assert_eq!(rec["vendor"].as_integer(), Some(0xffff));
    assert_eq!(rec["enabled"].as_bool(), Some(true));
    assert_eq!(rec["observed_keys"].as_array().unwrap().len(), 3);
    assert!(rec.get("unique_id").is_none(), "what is not known is left out");
    assert!(rec.get("capability_tag").is_none());
}

#[test]
fn awkward_texts_survive_the_file() {
    let names = [
        "", "\"", "'", "'\"", "\"\"\"\"\"", "''''", "a\nb", "\r\n", "\r", "\\", "\\'", "\t",
        "\u{0}\u{7f}", "ü — ®", "x\n\"\"", "\\''\n'''", "\n", "\n\n\"\"\"", "#[x]=1",
    ];
    for name in names {
        let db = Database { devices: vec![record(name), record("b")] };
        let back = load(&db.to_toml()).unwrap();
        assert_eq!(back.devices, db.devices, "{name:?}");
    }
}

#[test]
fn empty_database_survives_the_file() {
    let text = Database::default().to_toml();
    assert!(load(&text).unwrap().devices.is_empty());
}

#[test]
fn missing_fields_take_their_defaults() {
    let db = load("[[SchemaV1.devices]]\nslug = \"a\"\nname = \"A\"\n").unwrap();
    let rec = &db.devices[0];
    assert_eq!((rec.bus, rec.vendor, rec.product, rec.version), (0, 0, 0, 0));
    assert_eq!(rec.unique_id, None);
    assert!(!rec.enabled);
    assert!(rec.observed_keys.is_empty());
    assert!(load("[SchemaV1]\n").unwrap().devices.is_empty());
}

#[test]
fn unknown_versions_and_fields_fail() {
    let bad = [
        ("", UNKNOWN_VERSION),
        ("[SchemaV2]\ndevices = []\n", UNKNOWN_VERSION),
        ("[SchemaV1]\ndevices = []\n[Other]\n", UNKNOWN_VERSION),
        ("SchemaV1 = 1\n", "SchemaV1: not a table"),
        ("[SchemaV1]\nmore = 1\n", "SchemaV1: unknown field"),
        ("[SchemaV1]\ndevices = 1\n", "devices: not a list"),
        ("[SchemaV1]\ndevices = [1]\n", "device 1: not a table"),
        ("[[SchemaV1.devices]]\nslug = \"a\"\n", "device 1: missing field name"),
        ("[[SchemaV1.devices]]\nname = \"a\"\n", "device 1: missing field slug"),
        ("[[SchemaV1.devices]]\nslug = \"a\"\nname = \"A\"\ncolour = 1\n", "device 1: unknown field"),
        ("[[SchemaV1.devices]]\nslug = 1\nname = \"A\"\n", "device 1: invalid field slug"),
        ("[[SchemaV1.devices]]\nslug = \"a\"\nname = \"A\"\nbus = 65536\n", "device 1: invalid field bus"),
        ("[[SchemaV1.devices]]\nslug = \"a\"\nname = \"A\"\nbus = -1\n", "device 1: invalid field bus"),
        ("[[SchemaV1.devices]]\nslug = \"a\"\nname = \"A\"\nbus = 1.0\n", "device 1: invalid field bus"),
        ("[[SchemaV1.devices]]\nslug = \"a\"\nname = \"A\"\nenabled = 1\n", "device 1: invalid field enabled"),
        ("[[SchemaV1.devices]]\nslug = \"a\"\nname = \"A\"\nobserved_keys = [true]\n", "device 1: invalid field observed_keys"),
        ("[[SchemaV1.devices]]\nslug = \"a\"\nname = \"A\"\nunique_id = 1979-05-27\n", "device 1: invalid field unique_id"),
    ];
    for (text, reason) in bad {
        assert_eq!(parse_reason(text), reason, "{text:?}");
    }
}

#[test]
fn the_first_bad_record_is_named() {
    let good = "[[SchemaV1.devices]]\nslug = \"a\"\nname = \"A\"\n";
    let bad = "[[SchemaV1.devices]]\nslug = \"b\"\nversion = \"x\"\nenabled = 1\n";
    let text = format!("{good}{bad}{bad}");
    assert_eq!(parse_reason(&text), "device 2: missing field name");
    let named = bad.replace("version", "name = \"B\"\nversion");
    assert_eq!(parse_reason(&format!("{good}{named}")), "device 2: invalid field version");
}

#[test]
fn syntax_errors_are_reported_as_the_parser_words_them() {
    let text = "[SchemaV1\n";
    let expected = toml::from_str::<toml::Table>(text).unwrap_err().to_string();
    assert_eq!(parse_reason(text), expected);
}

#[test]
fn read_errors_propagate() {
    let file = FileRead::Failed { reason: "denied".to_string() };
    let err = Database::load("/x/db.toml", file).unwrap_err();
    assert_eq!(err.message(), "failed to read database /x/db.toml: denied");
}

#[test]
fn messages_name_path_and_reason() {
    let write = DbError::Write { path: "p".to_string(), reason: "r".to_string() };
    let parse = DbError::Parse { path: "p".to_string(), reason: "r".to_string() };
    assert_eq!(write.message(), "failed to write database p: r");
    assert_eq!(parse.message(), "failed to parse database p: r");
}

#[test]
fn temp_names_carry_process_and_nonce() {
    assert_eq!(temp_name(Some("x.toml"), 42, 1_700_000_000_000_000_000), ".x.toml.tmp.42.1700000000000000000");
    assert_eq!(temp_name(None, 1, 0), ".db.toml.tmp.1.0");
}

fn start() -> Save {
    let db = Database { devices: vec![record("K")] };
    db.save_atomic("d".to_string(), "d/.t".to_string(), "d/t".to_string())
}

fn fail(save: &mut Save) {
    save.advance(Err("boom".to_string()));
}

#[test]
fn a_save_goes_through_its_steps() {
    let mut save = start();
    for step in [
        SaveStep::MakeDir,
        SaveStep::CreateTemp,
        SaveStep::WriteTemp,
        SaveStep::SyncTemp,
        SaveStep::Rename,
    ] {
        assert_eq!(save.step, step);
        save.advance(Ok(()));
    }
    assert_eq!(save.step, SaveStep::Saved);
    assert_eq!(save.error, None);
}

#[test]
fn a_failed_step_ends_the_save_before_the_rename() {
    for (n, path) in [(0, "d"), (1, "d/.t"), (2, "d/.t"), (3, "d/.t")] {
        let mut save = start();
        for _ in 0..n {
            save.advance(Ok(()));
        }
        fail(&mut save);
        assert_eq!(save.step, SaveStep::Failed);
        let expected = DbError::Write { path: path.to_string(), reason: "boom".to_string() };
        assert_eq!(save.error, Some(expected));
    }
}

#[test]
fn a_failed_rename_cleans_up() {
    let mut save = start();
    for _ in 0..4 {
        save.advance(Ok(()));
    }
    fail(&mut save);
    assert_eq!(save.step, SaveStep::RemoveTemp);
    save.advance(Err("cannot remove".to_string()));
    assert_eq!(save.step, SaveStep::Failed);
    let expected = DbError::Write { path: "d/t".to_string(), reason: "boom".to_string() };
    assert_eq!(save.error, Some(expected));
}
