use raktar::error::RegistryError;
use raktar::index::{get_index, render_index};
use raktar::registry::Registry;
use raktar::version::Version;

fn version(major: u64, minor: u64, patch: u64) -> Version {
    Version { major, minor, patch, pre: String::new(), build: String::new() }
}

#[test]
fn test_index_is_one_json_object_per_version() {
    let mut registry = Registry::new();
    registry
        .store_package_info(
            "testcrate_1",
            &version(0, 1, 1),
            b"{\"name\":\"testcrate_1\",\"vers\":\"0.1.1\"}".to_vec(),
            11,
            1,
        )
        .expect("publish to succeed");
    registry
        .store_package_info(
            "testcrate_1",
            &version(0, 1, 2),
            b"{\"name\":\"testcrate_1\",\"vers\":\"0.1.2\"}".to_vec(),
            12,
            1,
        )
        .expect("publish to succeed");
    registry
        .set_yanked("testcrate_1", &version(0, 1, 1), true)
        .expect("yank to succeed");

    let index = get_index(&registry, "testcrate_1").expect("the index to render");
    let lines: Vec<&str> = index.split('\n').collect();
    assert_eq!(lines.len(), 2);

    let first: serde_json::Value =
        serde_json::from_str(lines[0]).expect("each index line to be JSON");
    assert_eq!(first.get("vers").and_then(|v| v.as_str()), Some("0.1.1"));
    assert_eq!(first.get("yanked").and_then(|v| v.as_bool()), Some(true));
    assert_eq!(
        first.get("cksum").and_then(|v| v.as_str()),
        Some("000000000000000b")
    );

    let second: serde_json::Value =
        serde_json::from_str(lines[1]).expect("each index line to be JSON");
    assert_eq!(second.get("vers").and_then(|v| v.as_str()), Some("0.1.2"));
    assert_eq!(second.get("yanked").and_then(|v| v.as_bool()), Some(false));
    assert_eq!(second.get("name").and_then(|v| v.as_str()), Some("testcrate_1"));
}

#[test]
fn test_index_of_missing_package_fails() {
    let registry = Registry::new();
    let r = get_index(&registry, "missing_crate");
    assert!(matches!(r, Err(RegistryError::NonExistentPackageInfo { .. })));
}

#[test]
fn test_index_of_no_records_is_empty() {
    let r = render_index(&Vec::new()).expect("an empty record list to render");
    assert_eq!(r, "");
}

#[test]
fn test_index_rejects_non_object_metadata() {
    let mut registry = Registry::new();
    registry
        .store_package_info("oddball", &version(1, 0, 0), b"[1,2,3]".to_vec(), 0, 1)
        .expect("publish to succeed");
    let r = get_index(&registry, "oddball");
    assert!(matches!(r, Err(RegistryError::InternalError)));
}
