use sling::index::{Entry, Index};
use sling::package::Package;
use sling::storage::ObjectRef;

fn obj(key: &str) -> ObjectRef {
    ObjectRef::new("test-bucket", key, "s3")
}

fn entry(name: &str, version: &str) -> Entry {
    let key = format!("{name}/{name}-{version}.tar.gz");
    Entry::new(name, version, &obj(key.as_str()))
}

#[test]
fn test_add_identical_entry_twice_yields_one_entry() {
    let mut index = Index::new();
    index.add(entry("foo", "1.0.0"));
    index.add(entry("foo", "1.0.0"));
    assert_eq!(index.get_available_versions("foo").len(), 1);
    assert!(index.contains(&Package::from_str("foo@1.0.0").unwrap()));
}

#[test]
fn test_add_same_key_keeps_the_later_object() {
    let mut index = Index::new();
    index.add(Entry::new("foo", "1.0.0", &obj("old/key")));
    index.add(Entry::new("foo", "1.0.0", &obj("new/key")));
    let found = index.find("foo", "1.0.0").unwrap();
    assert_eq!(found.object.key, "new/key".to_string());
    assert_eq!(index.get_available_versions("foo").len(), 1);
}

#[test]
fn test_contains_latest_iff_name_has_an_entry() {
    let mut index = Index::new();
    index.add(entry("foo", "not-a-version"));
    assert!(index.contains(&Package::from_str("foo").unwrap()));
    assert!(!index.contains(&Package::from_str("bar").unwrap()));
}

#[test]
fn test_contains_literal_compares_raw_version_text() {
    let mut index = Index::new();
    index.add(entry("foo", "1.0.0"));
    assert!(index.contains(&Package::from_str("foo@1.0.0").unwrap()));
    // "1.0" parses to the same triple but is a different raw string
    assert!(!index.contains(&Package::from_str("foo@1.0").unwrap()));
}

#[test]
fn test_find_normalizes_through_parsed_versions() {
    let mut index = Index::new();
    index.add(entry("foo", "1.0.0"));
    // the raw texts differ, the parsed triples agree
    let found = index.find("foo", "1.0");
    assert_eq!(found.unwrap().version, "1.0.0".to_string());
    assert!(index.find("foo", "1.0.1").is_none());
    assert!(index.find("foo", "junk").is_none());
}

#[test]
fn test_find_latest_picks_the_greatest_parsed_version() {
    let mut index = Index::new();
    index.add(entry("foo", "1.0.0"));
    index.add(entry("foo", "1.10.0"));
    index.add(entry("foo", "1.9.9"));
    let latest = index.find_latest("foo").unwrap();
    assert_eq!(latest.version, "1.10.0".to_string());
}

#[test]
fn test_find_latest_skips_unparseable_versions() {
    let mut index = Index::new();
    index.add(entry("foo", "2.0.0rc1"));
    index.add(entry("foo", "1.0.0"));
    let latest = index.find_latest("foo").unwrap();
    assert_eq!(latest.version, "1.0.0".to_string());
}

#[test]
fn test_find_latest_never_returns_an_unparseable_only_entry() {
    let mut index = Index::new();
    index.add(entry("foo", "not-a-version"));
    // the entry counts for contains but never wins resolution
    assert!(index.contains(&Package::from_str("foo").unwrap()));
    assert!(index.find_latest("foo").is_none());
}

#[test]
fn test_find_latest_breaks_parsed_ties_by_catalog_order() {
    let mut index = Index::new();
    index.add(entry("foo", "1.0"));
    index.add(entry("foo", "1.0.0"));
    let latest = index.find_latest("foo").unwrap();
    assert_eq!(latest.version, "1.0".to_string());
}

#[test]
fn test_entry_as_package_round_trips_into_contains() {
    let mut index = Index::new();
    index.add(entry("foo", "1.0.0"));
    let e = index.find("foo", "1.0.0").unwrap();
    let p = e.as_package();
    assert!(index.contains(&p));
    assert_eq!(p.to_string(), "foo@1.0.0".to_string());
}

#[test]
fn test_index_from_bucket_listing() {
    let objects = vec![
        obj("foo/foo-1.0.0.tar.gz"),
        obj("foo/foo-1.2.0.tar.gz"),
        obj("bar/bar-0.1.0.tar.gz"),
        obj("junk/readme.txt"),
    ];
    let index = Index::from_listing(&objects);
    assert!(index.contains(&Package::from_str("foo").unwrap()));
    assert!(index.contains(&Package::from_str("bar").unwrap()));
    assert!(!index.contains(&Package::from_str("baz").unwrap()));
    assert!(!index.contains(&Package::from_str("junk").unwrap()));
    assert!(!index.contains(&Package::from_str("readme").unwrap()));
    let latest = index.find_latest("foo").unwrap();
    assert_eq!(latest.version, "1.2.0".to_string());
    assert_eq!(latest.object.key, "foo/foo-1.2.0.tar.gz".to_string());
    assert_eq!(index.get_available_versions("foo").len(), 2);
    assert_eq!(index.get_available_versions("bar").len(), 1);
    assert_eq!(index.get_available_versions("junk").len(), 0);
}

#[test]
fn test_listing_entry_name_comes_from_the_directory() {
    let objects = vec![obj("dir_name/file-3.4.5.zip")];
    let index = Index::from_listing(&objects);
    assert!(index.contains(&Package::from_str("dir_name@3.4.5").unwrap()));
    assert!(!index.contains(&Package::from_str("file@3.4.5").unwrap()));
}

#[test]
fn test_listing_skips_keys_without_a_directory() {
    let objects = vec![obj("foo-1.0.0.tar.gz")];
    let index = Index::from_listing(&objects);
    assert!(!index.contains(&Package::from_str("foo").unwrap()));
}

#[test]
fn test_available_versions_carry_parsed_triples() {
    let mut index = Index::new();
    index.add(entry("foo", "1.2.3"));
    let available = index.get_available_versions("foo");
    assert_eq!(available.len(), 1);
    assert_eq!(available[0].0.major, 1);
    assert_eq!(available[0].0.minor, 2);
    assert_eq!(available[0].0.patch, 3);
    assert_eq!(available[0].1.name, "foo".to_string());
}

#[test]
fn test_object_url_rendering() {
    let o = ObjectRef::new("bucket", "foo/foo-1.0.0.tar.gz", "gs");
    assert_eq!(
        o.get_object_url(),
        "gs://bucket/foo/foo-1.0.0.tar.gz".to_string()
    );
}
