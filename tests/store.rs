use std::path::PathBuf;

use speicherstadt::crate_files::{
    is_plain_path_segment, CrateFileStorage, Filesystem, MemoryStore, StoreError,
};

#[test]
fn store_is_create_once() {
    let mut s = MemoryStore::new();
    assert_eq!(s.store_file("demo", "1.0.0", b"B1"), Ok(()));
    assert_eq!(s.store_file("demo", "1.0.0", b"B2"), Err(StoreError::AlreadyExists));
    assert_eq!(s.get_file("demo", "1.0.0"), Ok(Some(b"B1".to_vec())));
}

#[test]
fn absent_key_is_none() {
    let s = MemoryStore::new();
    assert_eq!(s.get_file("nope", "0.0.1"), Ok(None));
}

#[test]
fn delete_then_get_is_none() {
    let mut s = MemoryStore::new();
    s.store_file("demo", "1.0.0", b"B1").unwrap();
    s.store_file("demo", "1.0.1", b"B3").unwrap();
    assert_eq!(s.delete_file("demo", "1.0.0"), Ok(()));
    assert_eq!(s.get_file("demo", "1.0.0"), Ok(None));
    assert_eq!(s.get_file("demo", "1.0.1"), Ok(Some(b"B3".to_vec())));
    // The key is free again.
    assert_eq!(s.store_file("demo", "1.0.0", b"B4"), Ok(()));
    assert_eq!(s.get_file("demo", "1.0.0"), Ok(Some(b"B4".to_vec())));
}

#[test]
fn delete_of_absent_key_changes_nothing() {
    let mut s = MemoryStore::new();
    s.store_file("a", "1", b"x").unwrap();
    assert_eq!(s.delete_file("b", "1"), Ok(()));
    assert_eq!(s.get_file("a", "1"), Ok(Some(b"x".to_vec())));
}

#[test]
fn same_key_stores_one_success() {
    let mut s = MemoryStore::new();
    let payloads: Vec<Vec<u8>> = (0u8..8).map(|i| vec![i; 3]).collect();
    let results: Vec<_> = payloads.iter().map(|p| s.store_file("demo", "2.0.0", p)).collect();
    assert_eq!(results.iter().filter(|r| r.is_ok()).count(), 1);
    assert_eq!(results[0], Ok(()));
    assert!(results[1..].iter().all(|r| *r == Err(StoreError::AlreadyExists)));
    assert_eq!(s.get_file("demo", "2.0.0"), Ok(Some(vec![0, 0, 0])));
}

#[test]
fn distinct_keys_do_not_interfere() {
    let mut s = MemoryStore::new();
    assert_eq!(s.store_file("a", "1.0.0", b"a1"), Ok(()));
    assert_eq!(s.store_file("a", "1.0.1", b"a2"), Ok(()));
    assert_eq!(s.store_file("b", "1.0.0", b"b1"), Ok(()));
    assert_eq!(s.get_file("a", "1.0.0"), Ok(Some(b"a1".to_vec())));
    assert_eq!(s.get_file("a", "1.0.1"), Ok(Some(b"a2".to_vec())));
    assert_eq!(s.get_file("b", "1.0.0"), Ok(Some(b"b1".to_vec())));
}

#[test]
fn empty_artifact_is_stored() {
    let mut s = MemoryStore::new();
    assert_eq!(s.store_file("e", "0.1.0", b""), Ok(()));
    assert_eq!(s.get_file("e", "0.1.0"), Ok(Some(Vec::new())));
}

#[test]
fn filesystem_path_is_base_name_version() {
    let fs = Filesystem::new("/srv/crates".to_string());
    assert_eq!(fs.file_path("demo", "1.0.0"), Some(PathBuf::from("/srv/crates/demo/1.0.0")));
    assert_eq!(fs.base_path(), "/srv/crates");
    assert_eq!(
        fs.file_location("demo", "1.0.0"),
        vec!["/srv/crates".to_string(), "demo".to_string(), "1.0.0".to_string()]
    );
}

#[test]
fn filesystem_paths_differ_per_key() {
    let fs = Filesystem::new("base".to_string());
    assert_ne!(fs.file_path("a", "1.0.0"), fs.file_path("a", "1.0.1"));
    assert_ne!(fs.file_path("a", "1.0.0"), fs.file_path("b", "1.0.0"));
}

#[test]
fn filesystem_refuses_versions_that_leave_the_package_directory() {
    let fs = Filesystem::new("/srv/crates".to_string());
    for v in ["../x", "/x", "a/b", "a\\b", "..", ".", "", "c:x"] {
        assert_eq!(fs.file_path("demo", v), None, "{v}");
    }
    assert!(is_plain_path_segment("1.0.0-beta.1+build"));
    assert!(!is_plain_path_segment("../x"));
}
