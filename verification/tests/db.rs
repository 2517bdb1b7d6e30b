use evmqtt_rs::db::{Database, DeviceRecord, MatchOutcome};
use evmqtt_rs::discovery::DeviceIdentity;
use evmqtt_rs::store::FileRead;

fn ident(name: &str, uniq: Option<&str>, b: u16, v: u16, p: u16, ver: u16) -> DeviceIdentity {
    DeviceIdentity {
        path: "/dev/input/event0".to_string(),
        name: name.to_string(),
        unique_id: uniq.map(|s| s.to_string()),
        bus: b,
        vendor: v,
        product: p,
        version: ver,
        physical_path: None,
        has_keys: true,
        capability_fingerprint: String::new(),
        capability_tag: "",
    }
}

#[test]
fn allocates_slug_from_name() {
    let mut db = Database::default();
    let slug = db.insert(&ident("USB Keyboard", Some("abc"), 3, 1, 2, 3));
    assert_eq!(slug, "usb-keyboard");
}

#[test]
fn slug_collisions_get_numeric_suffix() {
    let mut db = Database::default();
    db.insert(&ident("USB Keyboard", Some("a"), 3, 1, 2, 3));
    let s2 = db.insert(&ident("USB Keyboard", Some("b"), 3, 1, 2, 3));
    let s3 = db.insert(&ident("USB Keyboard", Some("c"), 3, 1, 2, 3));
    assert_eq!(s2, "usb-keyboard-2");
    assert_eq!(s3, "usb-keyboard-3");
}

#[test]
fn match_prefers_unique_id() {
    let mut db = Database::default();
    db.insert(&ident("Keyboard", Some("abc"), 3, 1, 2, 3));
    // Same unique_id, different BVPV/name — should still match.
    let id = ident("Renamed", Some("abc"), 9, 9, 9, 9);
    let m = db.match_identity(&id).unwrap();
    assert_eq!(m.slug, "keyboard");
}

#[test]
fn match_falls_back_to_bvp() {
    let mut db = Database::default();
    db.insert(&ident("Keyboard", None, 3, 0x046d, 0xc52b, 0x0111));
    // No unique_id either side — match by quad.
    let id = ident("Some other name", None, 3, 0x046d, 0xc52b, 0x0111);
    let m = db.match_identity(&id).unwrap();
    assert_eq!(m.slug, "keyboard");
}

#[test]
fn match_falls_back_to_name_when_no_other_ids() {
    let mut db = Database::default();
    db.insert(&ident("GPIO Keys", None, 0, 0, 0, 0));
    let id = ident("GPIO Keys", None, 0, 0, 0, 0);
    assert!(db.match_identity(&id).is_some());
    let id2 = ident("Different", None, 0, 0, 0, 0);
    assert!(db.match_identity(&id2).is_none());
}

#[test]
fn unique_id_on_one_side_only_does_not_match_by_uniq() {
    let mut db = Database::default();
    // Stored has unique_id; incoming doesn't — uniq match is skipped,
    // BVPV match applies and succeeds.
    db.insert(&ident("Keyboard", Some("abc"), 3, 0x046d, 0xc52b, 0x0111));
    let id = ident("Keyboard", None, 3, 0x046d, 0xc52b, 0x0111);
    assert!(db.match_identity(&id).is_some());
}

#[test]
fn observed_keys_dedup_and_sort() {
    let mut db = Database::default();
    db.insert(&ident("Keyboard", Some("abc"), 3, 1, 2, 3));
    let rec = db.find_mut("keyboard").unwrap();
    assert!(rec.record_observed_key(30));
    assert!(rec.record_observed_key(28));
    assert!(!rec.record_observed_key(30));
    assert_eq!(rec.observed_keys, vec![28, 30]);
}

#[test]
fn save_then_load_round_trip() {
    let mut db = Database::default();
    db.insert(&ident("Keyboard", Some("abc"), 3, 1, 2, 3));
    let rec = db.find_mut("keyboard").unwrap();
    rec.enabled = true;
    rec.record_observed_key(30);
    rec.record_observed_key(115);

    let save = db.save_atomic(".".to_string(), "./.t".to_string(), "./t".to_string());
    let loaded = Database::load("./t", FileRead::Text(save.text)).unwrap();

    assert_eq!(loaded.devices.len(), 1);
    let r = &loaded.devices[0];
    assert_eq!(r.slug, "keyboard");
    assert_eq!(r.name, "Keyboard");
    assert_eq!(r.unique_id.as_deref(), Some("abc"));
    assert!(r.enabled);
    assert_eq!(r.observed_keys, vec![30, 115]);
}

#[test]
fn missing_file_loads_as_empty() {
    let path = "/nonexistent/evmqtt-test/should-not-exist.toml";
    let db = Database::load(path, FileRead::Missing).unwrap();
    assert!(db.devices.is_empty());
}

#[test]
fn remove_drops_record() {
    let mut db = Database::default();
    db.insert(&ident("Keyboard", Some("abc"), 3, 1, 2, 3));
    assert!(db.remove("keyboard"));
    assert!(!db.remove("keyboard"));
    assert!(db.devices.is_empty());
}

fn tagged(name: &str, fingerprint: &str, tag: &'static str) -> DeviceIdentity {
    let mut id = ident(name, None, 3, 1, 2, 3);
    id.capability_fingerprint = fingerprint.to_string();
    id.capability_tag = tag;
    id
}

#[test]
fn nodes_of_one_receiver_are_told_apart() {
    let mut db = Database::default();
    let kbd = tagged("Receiver", "aa", "kbd");
    let mouse = tagged("Receiver", "bb", "mouse");
    assert_eq!(
        db.match_or_insert(&kbd),
        MatchOutcome::Inserted { slug: "receiver-kbd".to_string() }
    );
    assert_eq!(
        db.match_or_insert(&mouse),
        MatchOutcome::Inserted { slug: "receiver-mouse".to_string() }
    );
    assert_eq!(db.devices[0].display_name(), "Receiver (kbd)");
    assert_eq!(db.devices[1].display_name(), "Receiver (mouse)");
    assert_eq!(
        db.match_or_insert(&mouse),
        MatchOutcome::Matched { slug: "receiver-mouse".to_string(), backfilled: false }
    );
    assert_eq!(db.devices.len(), 2);
}

#[test]
fn old_record_is_completed_at_the_next_sighting() {
    let mut db = Database::default();
    assert_eq!(db.insert(&ident("Keyboard", None, 3, 1, 2, 3)), "keyboard");
    db.find_mut("keyboard").unwrap().enabled = true;
    let mut id = tagged("Keyboard", "aa", "kbd");
    id.physical_path = Some("usb-1".to_string());
    assert_eq!(
        db.match_or_insert(&id),
        MatchOutcome::Matched { slug: "keyboard".to_string(), backfilled: true }
    );
    let rec = db.find("keyboard").unwrap();
    assert_eq!(rec.capability_fingerprint.as_deref(), Some("aa"));
    assert_eq!(rec.capability_tag.as_deref(), Some("kbd"));
    assert_eq!(rec.physical_path.as_deref(), Some("usb-1"));
    assert!(rec.enabled);
    assert_eq!(
        db.match_or_insert(&id),
        MatchOutcome::Matched { slug: "keyboard".to_string(), backfilled: false }
    );
}

#[test]
fn first_match_and_first_slug_win() {
    let mut db = Database::default();
    db.insert(&ident("A", None, 0, 0, 0, 0));
    db.insert(&ident("A", None, 0, 0, 0, 0));
    assert_eq!(db.match_identity(&ident("A", None, 0, 0, 0, 0)).unwrap().slug, "a");
    assert!(db.find("a-2").is_some());
    assert!(db.find("b").is_none());
    assert!(db.find_mut("b").is_none());
}

#[test]
fn freed_slug_is_taken_again() {
    let mut db = Database::default();
    for _ in 0..3 {
        db.insert(&ident("A", None, 0, 0, 0, 0));
    }
    assert!(db.remove("a-2"));
    assert_eq!(db.insert(&ident("A", None, 0, 0, 0, 0)), "a-2");
    assert_eq!(db.allocate_slug("a"), "a-4");
}

#[test]
fn records_match_alone() {
    let rec = DeviceRecord {
        slug: "x".to_string(),
        name: "X".to_string(),
        unique_id: Some("u".to_string()),
        bus: 3,
        vendor: 1,
        product: 2,
        version: 3,
        physical_path: None,
        capability_fingerprint: None,
        capability_tag: None,
        enabled: false,
        observed_keys: vec![],
    };
    assert!(rec.matches(&ident("Y", Some("u"), 0, 0, 0, 0)));
    assert!(!rec.matches(&ident("X", Some("v"), 3, 1, 2, 3)));
    assert!(!rec.matches(&ident("X", None, 3, 1, 2, 4)));
    assert!(rec.matches(&ident("Y", None, 3, 1, 2, 3)));
    assert_eq!(rec.clone(), rec);
}

#[test]
fn ids_on_one_side_only_leave_the_name_to_decide() {
    let mut db = Database::default();
    db.insert(&ident("Keyboard", None, 3, 0x046d, 0xc52b, 0x0111));
    db.insert(&ident("GPIO Keys", None, 0, 0, 0, 0));
    assert_eq!(db.match_identity(&ident("Keyboard", None, 0, 0, 0, 0)).unwrap().slug, "keyboard");
    assert!(db.match_identity(&ident("Other", None, 0, 0, 0, 0)).is_none());
    let known = ident("GPIO Keys", None, 3, 1, 0, 0);
    assert_eq!(db.match_identity(&known).unwrap().slug, "gpio-keys");
    assert!(db.match_identity(&ident("Keyboard", None, 3, 0, 1, 0)).is_none());
}
