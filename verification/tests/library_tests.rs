//! The manifest model, pack filtering, snapshot path handling and remote
//! addressing.

use updater::manifest::{Entry, Manifest};
use updater::packs::DataPacks;
use updater::remote::{remote_object_path, remote_object_url};
use updater::snapshot::{excluded_path, normalize_path, snapshot_add};

fn entry(checksum: &str, size_bytes: usize) -> Entry {
    Entry { checksum: checksum.to_string(), size_bytes }
}

#[test]
fn manifest_lookup() {
    let mut m = Manifest::new();
    assert_eq!(m.len(), 0);
    m.insert("data/system/a".to_string(), entry("ck-a", 3));
    m.insert("data/input/b".to_string(), entry("ck-b", 5));
    assert_eq!(m.len(), 2);
    assert!(m.contains_path(&"data/system/a".to_string()));
    assert!(!m.contains_path(&"data/system/missing".to_string()));
    let got = m.get(&"data/input/b".to_string()).unwrap();
    assert_eq!(got.checksum, "ck-b");
    assert_eq!(got.size_bytes, 5);
    assert!(m.get(&"data/input/c".to_string()).is_none());
}

#[test]
fn filter_keeps_exactly_the_enabled_entries() {
    let mut m = Manifest::new();
    for i in 0..6 {
        m.insert(format!("data/system/core/file{}", i), entry(&format!("ck{}", i), i));
    }
    for i in 0..4 {
        m.insert(format!("data/input/huge/file{}", i), entry(&format!("in{}", i), i));
    }
    // Enable only the pack the six system entries belong to.
    let packs = DataPacks::new(vec!["data/system/core/".to_string()]);
    let filtered = m.filter(&packs);
    assert_eq!(filtered.len(), 6);
    for i in 0..6 {
        let path = format!("data/system/core/file{}", i);
        let kept = filtered.get(&path).unwrap();
        assert_eq!(kept.checksum, format!("ck{}", i));
    }
    for i in 0..4 {
        assert!(!filtered.contains_path(&format!("data/input/huge/file{}", i)));
    }
}

#[test]
fn filter_with_everything_enabled_keeps_all() {
    let mut m = Manifest::new();
    m.insert("data/system/a".to_string(), entry("1", 1));
    m.insert("data/input/b".to_string(), entry("2", 2));
    let packs = DataPacks::new(vec!["data/".to_string()]);
    let filtered = m.filter(&packs);
    assert_eq!(filtered.len(), 2);
}

#[test]
fn default_selection_is_the_base_system_tree() {
    let packs = DataPacks::default_selection();
    assert!(packs.allows_path(&"data/system/us/seattle/map.bin".to_string()));
    assert!(!packs.allows_path(&"data/input/us/seattle/raw.osm".to_string()));
}

#[test]
fn separators_are_normalized() {
    assert_eq!(normalize_path(&"data\\system\\maps\\a.bin".to_string()), "data/system/maps/a.bin");
    assert_eq!(normalize_path(&"data/system/maps/a.bin".to_string()), "data/system/maps/a.bin");
    assert_eq!(normalize_path(&"".to_string()), "");
}

#[test]
fn denylist_excludes_untracked_subtrees() {
    assert!(excluded_path(&"data/system/assets/icon.png".to_string()));
    assert!(excluded_path(&"data/system/fonts/face.ttf".to_string()));
    assert!(excluded_path(&"data/system/proposals/x.json".to_string()));
    assert!(!excluded_path(&"data/system/us/seattle/map.bin".to_string()));
}

#[test]
fn snapshot_applies_normalization_and_denylist() {
    let mut m = Manifest::new();
    assert!(snapshot_add(&mut m, &"data\\system\\maps\\a.bin".to_string(), entry("ck", 1)));
    assert!(m.contains_path(&"data/system/maps/a.bin".to_string()));

    // The denylist drops this one.
    assert!(!snapshot_add(&mut m, &"data/system/assets/icon.png".to_string(), entry("ck", 1)));
    // A path seen a second time is not recorded again.
    assert!(!snapshot_add(&mut m, &"data/system/maps/a.bin".to_string(), entry("other", 2)));
    assert_eq!(m.len(), 1);
    assert_eq!(m.get(&"data/system/maps/a.bin".to_string()).unwrap().checksum, "ck");
}

#[test]
fn remote_addresses_are_deterministic() {
    assert_eq!(
        remote_object_url(&"dev".to_string(), &"data/system/a.bin".to_string()),
        "http://abstreet.s3-website.us-east-2.amazonaws.com/dev/data/system/a.bin.gz"
    );
    assert_eq!(
        remote_object_path(&"/tmp/s3/dev".to_string(), &"data/system/a.bin".to_string()),
        "/tmp/s3/dev/data/system/a.bin.gz"
    );
}
