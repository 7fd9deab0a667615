use mcat::db::{compute_total_hash, Database, Entry};
use mcat::repos::toml_repo::TomlDb;
use mcat::{McatError, TagAttributes};

fn attrs(title: Option<&str>, artist: Option<&str>) -> TagAttributes {
    TagAttributes {
        title: title.map(|s| s.to_string()),
        artist: artist.map(|s| s.to_string()),
        album: None,
        album_artist: None,
        genre: None,
    }
}

fn entry(hash: &str, title: Option<&str>) -> Entry {
    Entry { file_hash: hash.to_string(), tag_attr: attrs(title, None) }
}

fn hex_of(data: &[u8]) -> String {
    blake3::hash(data).to_hex().to_string()
}

fn keys(db: &TomlDb) -> Vec<String> {
    db.get_track_hashes()
}

#[test]
fn query_after_insert_gives_what_was_inserted() {
    let mut db = TomlDb::new();
    db.insert_track("h1".to_string(), attrs(Some("Tempest"), Some("Bob Dylan")));
    let e = db.query_track_by_hash("h1").unwrap();
    assert_eq!(e.file_hash, "h1");
    assert_eq!(e.tag_attr.title.as_deref(), Some("Tempest"));
    assert_eq!(e.tag_attr.artist.as_deref(), Some("Bob Dylan"));
    assert!(db.query_track_by_hash("h2").is_none());
}

#[test]
fn insert_replaces_the_entry_of_a_key() {
    let mut db = TomlDb::new();
    db.insert_track("h1".to_string(), attrs(Some("Old"), None));
    db.insert_track("h1".to_string(), attrs(Some("New"), None));
    assert_eq!(keys(&db), vec!["h1".to_string()]);
    assert_eq!(db.query_track_by_hash("h1").unwrap().tag_attr.title.as_deref(), Some("New"));
}

#[test]
fn remove_undoes_insert() {
    let mut db = TomlDb::new();
    db.insert_track("b".to_string(), attrs(Some("B"), None));
    let before = keys(&db);
    db.insert_track("a".to_string(), attrs(Some("A"), None));
    assert_eq!(db.remove_track("a"), Ok(()));
    assert_eq!(keys(&db), before);
    assert_eq!(db.query_track_by_hash("b").unwrap().tag_attr.title.as_deref(), Some("B"));
}

#[test]
fn removing_a_missing_track_fails() {
    let mut db = TomlDb::new();
    db.insert_track("a".to_string(), attrs(None, None));
    assert_eq!(db.remove_track("zz"), Err(McatError::TrackNotFound));
    assert_eq!(keys(&db), vec!["a".to_string()]);
    let removed = db.remove_entry("a").unwrap();
    assert_eq!(removed.file_hash, "a");
    assert!(db.remove_entry("a").is_none());
}

#[test]
fn insert_order_does_not_matter() {
    let mut a = TomlDb::new();
    a.insert_track("k2".to_string(), attrs(Some("two"), None));
    a.insert_track("k1".to_string(), attrs(Some("one"), None));
    let mut b = TomlDb::new();
    b.insert_track("k1".to_string(), attrs(Some("one"), None));
    b.insert_track("k2".to_string(), attrs(Some("two"), None));
    assert_eq!(keys(&a), keys(&b));
    assert_eq!(keys(&a), vec!["k1".to_string(), "k2".to_string()]);
    a.update_hash();
    b.update_hash();
    assert_eq!(a.total_hash(), b.total_hash());
}

#[test]
fn total_hash_is_blake3_of_sorted_keys() {
    let mut db = TomlDb::new();
    assert_eq!(db.total_hash(), "");
    db.insert_track("zeta".to_string(), attrs(None, None));
    db.insert_track("alpha".to_string(), attrs(None, None));
    db.insert_track("mid".to_string(), attrs(None, None));
    assert_eq!(db.total_hash(), "");
    db.update_hash();
    assert_eq!(db.total_hash(), &hex_of(b"alphamidzeta"));
    let empty = TomlDb::init_empty();
    let mut e = empty;
    e.update_hash();
    assert_eq!(e.total_hash(), &hex_of(b""));
}

#[test]
fn total_hash_depends_on_keys_only() {
    let mut a = TomlDb::new();
    a.insert_track("x".to_string(), attrs(Some("first"), None));
    let mut b = TomlDb::new();
    b.insert_track("x".to_string(), attrs(Some("second"), Some("someone")));
    a.update_hash();
    b.update_hash();
    assert_eq!(a.total_hash(), b.total_hash());
}

#[test]
fn stored_entries_are_sorted_and_last_wins() {
    let db = TomlDb::from_stored(
        "stored".to_string(),
        vec![entry("c", Some("C")), entry("a", Some("A1")), entry("b", None), entry("a", Some("A2"))],
    );
    assert_eq!(db.total_hash(), "stored");
    assert_eq!(keys(&db), vec!["a".to_string(), "b".to_string(), "c".to_string()]);
    assert_eq!(db.query_track_by_hash("a").unwrap().tag_attr.title.as_deref(), Some("A2"));
    let titles: Vec<Option<String>> = db.get_tag_attrs().iter().map(|t| t.title.clone()).collect();
    assert_eq!(titles, vec![Some("A2".to_string()), None, Some("C".to_string())]);
    assert_eq!(db.entries().len(), 3);
}

#[test]
fn query_by_title_finds_the_first_in_key_order() {
    let mut db = TomlDb::default();
    db.insert_track("k3".to_string(), attrs(Some("Same"), Some("third")));
    db.insert_track("k1".to_string(), attrs(Some("Other"), None));
    db.insert_track("k2".to_string(), attrs(Some("Same"), Some("second")));
    let e = db.query_track_by_title("Same").unwrap();
    assert_eq!(e.file_hash, "k2");
    assert!(db.query_track_by_title("Missing").is_none());
}

#[test]
fn find_track_by_hash_or_by_title() {
    let hash = hex_of(b"track file");
    let mut db = TomlDb::new();
    db.insert_track(hash.clone(), attrs(Some("Toledo"), None));
    assert_eq!(db.find_track(&hash).unwrap().file_hash, hash);
    assert_eq!(db.find_track("Toledo").unwrap().file_hash, hash);
    assert!(db.find_track(&hex_of(b"other")).is_none());
    assert!(db.find_track("Upgrade Me").is_none());
}

#[test]
fn compute_total_hash_concatenates_keys() {
    let ks = vec!["ab".to_string(), "cd".to_string()];
    assert_eq!(compute_total_hash(&ks), hex_of(b"abcd"));
}

#[test]
fn database_keeps_its_hash_current() {
    let mut db = Database::new();
    db.insert_entry(entry("b", None));
    assert_eq!(db.total_hash(), &hex_of(b"b"));
    db.insert_entry(entry("a", None));
    assert_eq!(db.total_hash(), &hex_of(b"ab"));
    let ks: Vec<&str> = db.entries().iter().map(|e| e.file_hash.as_str()).collect();
    assert_eq!(ks, vec!["a", "b"]);
    let fresh = Database::default();
    assert_eq!(fresh.total_hash(), "");
}

#[test]
fn database_inserts_commute() {
    let mut a = Database::new();
    a.insert_entry(entry("k2", Some("two")));
    a.insert_entry(entry("k1", Some("one")));
    let mut b = Database::new();
    b.insert_entry(entry("k1", Some("one")));
    b.insert_entry(entry("k2", Some("two")));
    assert_eq!(a.total_hash(), b.total_hash());
    let ka: Vec<&str> = a.entries().iter().map(|e| e.file_hash.as_str()).collect();
    let kb: Vec<&str> = b.entries().iter().map(|e| e.file_hash.as_str()).collect();
    assert_eq!(ka, kb);
    let stored = Database::from_stored("h".to_string(), vec![entry("b", None), entry("a", None)]);
    assert_eq!(stored.total_hash(), "h");
    assert_eq!(stored.entries().len(), 2);
}
