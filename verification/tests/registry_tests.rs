use raktar::error::RegistryError;
use raktar::registry::Registry;
use raktar::version::Version;

fn version(major: u64, minor: u64, patch: u64) -> Version {
    Version { major, minor, patch, pre: String::new(), build: String::new() }
}

#[test]
fn test_store_then_get_returns_exactly_the_stored_data() {
    let mut registry = Registry::new();
    let v = version(1, 0, 0);
    registry
        .store_package_info("testcrate_1", &v, b"{\"name\":\"testcrate_1\"}".to_vec(), 77, 1)
        .expect("first publish to succeed");
    let records = registry.get_package_info("testcrate_1").expect("package to exist");
    assert_eq!(records.len(), 1);
    assert_eq!(records[0].version.major, 1);
    assert_eq!(records[0].metadata, b"{\"name\":\"testcrate_1\"}".to_vec());
    assert_eq!(records[0].checksum, 77);
    assert!(!records[0].yanked);
}

#[test]
fn test_duplicate_publish_rejected_and_record_unchanged() {
    let mut registry = Registry::new();
    let v = version(0, 1, 1);
    registry
        .store_package_info("testcrate_1", &v, b"first".to_vec(), 1, 1)
        .expect("first publish to succeed");
    let second = registry.store_package_info("testcrate_1", &v, b"second".to_vec(), 2, 1);
    match second {
        Err(RegistryError::DuplicateCrateVersion { crate_name, version }) => {
            assert_eq!(crate_name, "testcrate_1");
            assert_eq!(version.minor, 1);
        },
        other => panic!("expected a duplicate error, got {:?}", other.is_ok()),
    }
    let records = registry.get_package_info("testcrate_1").expect("package to exist");
    assert_eq!(records.len(), 1);
    assert_eq!(records[0].metadata, b"first".to_vec());
    assert_eq!(records[0].checksum, 1);
}

#[test]
fn test_yank_missing_version_fails() {
    let mut registry = Registry::new();
    let v = version(0, 1, 1);
    let r = registry.set_yanked("nothing_here", &v, true);
    assert!(matches!(r, Err(RegistryError::NonExistentCrateVersion { .. })));

    registry
        .store_package_info("testcrate_1", &v, b"m".to_vec(), 0, 1)
        .expect("publish to succeed");
    let r = registry.set_yanked("testcrate_1", &version(0, 2, 0), true);
    assert!(matches!(r, Err(RegistryError::NonExistentCrateVersion { .. })));
}

#[test]
fn test_yank_is_idempotent_and_observable() {
    let mut registry = Registry::new();
    let v = version(0, 1, 1);
    registry
        .store_package_info("testcrate_1", &v, b"m".to_vec(), 0, 1)
        .expect("publish to succeed");
    registry.set_yanked("testcrate_1", &v, true).expect("yank to succeed");
    let records = registry.get_package_info("testcrate_1").expect("package to exist");
    assert!(records[0].yanked);
    registry.set_yanked("testcrate_1", &v, true).expect("second yank to succeed too");
    let records = registry.get_package_info("testcrate_1").expect("package to exist");
    assert!(records[0].yanked);
    registry.set_yanked("testcrate_1", &v, false).expect("unyank to succeed");
    let records = registry.get_package_info("testcrate_1").expect("package to exist");
    assert!(!records[0].yanked);
}

#[test]
fn test_add_owners_is_a_set_union() {
    let mut registry = Registry::new();
    let v = version(0, 1, 1);
    registry
        .store_package_info("testcrate_1", &v, b"m".to_vec(), 0, 1)
        .expect("publish to succeed");
    assert_eq!(registry.list_owners("testcrate_1").expect("owners to exist"), vec![1]);

    registry.add_owners("testcrate_1", &vec![7, 8, 7]).expect("adding owners to succeed");
    assert_eq!(registry.list_owners("testcrate_1").expect("owners to exist"), vec![1, 7, 8]);

    registry.add_owners("testcrate_1", &vec![7, 1]).expect("re-adding owners to succeed");
    assert_eq!(registry.list_owners("testcrate_1").expect("owners to exist"), vec![1, 7, 8]);
}

#[test]
fn test_add_owners_does_not_create_a_package() {
    let mut registry = Registry::new();
    let r = registry.add_owners("never_published", &vec![1]);
    assert!(matches!(r, Err(RegistryError::NonExistentPackageInfo { .. })));
    assert!(matches!(
        registry.get_package_info("never_published"),
        Err(RegistryError::NonExistentPackageInfo { .. })
    ));
}

#[test]
fn test_reads_on_missing_package_fail_with_non_existent_package_info() {
    let registry = Registry::new();
    assert!(matches!(
        registry.get_package_info("missing_crate"),
        Err(RegistryError::NonExistentPackageInfo { .. })
    ));
    assert!(matches!(
        registry.list_owners("missing_crate"),
        Err(RegistryError::NonExistentPackageInfo { .. })
    ));
    assert!(matches!(
        registry.head_version("missing_crate"),
        Err(RegistryError::NonExistentPackageInfo { .. })
    ));
}

#[test]
fn test_crate_query_with_head_version_works() {
    let mut registry = Registry::new();
    registry
        .store_package_info("testcrate_1", &version(0, 1, 1), b"m1".to_vec(), 0, 1)
        .expect("publish to succeed");
    let head = registry.head_version("testcrate_1").expect("head to exist");
    assert_eq!(head.to_display_string(), "0.1.1");

    registry
        .store_package_info("testcrate_1", &version(0, 1, 2), b"m2".to_vec(), 0, 1)
        .expect("publish to succeed");
    let head = registry.head_version("testcrate_1").expect("head to exist");
    assert_eq!(head.to_display_string(), "0.1.2");

    let records = registry.get_package_info("testcrate_1").expect("package to exist");
    let versions: Vec<String> = records.iter().map(|r| r.version.to_display_string()).collect();
    assert_eq!(versions, vec!["0.1.1", "0.1.2"]);
}

#[test]
fn test_crate_query_returns_null_when_crate_is_missing() {
    let registry = Registry::new();
    let r = registry.get_version_info("missing_crate", &version(0, 1, 1));
    assert!(matches!(r, Err(RegistryError::NonExistentPackageInfo { .. })));
}

#[test]
fn test_crate_query_returns_null_when_crate_version_is_missing() {
    let mut registry = Registry::new();
    registry
        .store_package_info("testcrate_1", &version(0, 1, 1), b"m1".to_vec(), 0, 1)
        .expect("publish to succeed");
    let head = registry.head_version("testcrate_1").expect("head to exist");
    assert_eq!(head.to_display_string(), "0.1.1");

    let r = registry.get_version_info("testcrate_1", &version(0, 2, 0));
    match r {
        Err(RegistryError::NonExistentCrateVersion { crate_name, version }) => {
            assert_eq!(crate_name, "testcrate_1");
            assert_eq!(version.to_display_string(), "0.2.0");
        },
        _ => panic!("a missing version must not be reported as a missing package"),
    }
    let rec = registry
        .get_version_info("testcrate_1", &version(0, 1, 1))
        .expect("the published version to be found");
    assert_eq!(rec.metadata, b"m1".to_vec());
}

#[test]
fn test_head_version_prefers_release_over_prerelease() {
    let mut registry = Registry::new();
    let pre = Version {
        major: 1,
        minor: 0,
        patch: 0,
        pre: "alpha.1".to_string(),
        build: String::new(),
    };
    registry
        .store_package_info("testcrate_2", &pre, b"m1".to_vec(), 0, 1)
        .expect("publish to succeed");
    registry
        .store_package_info("testcrate_2", &version(1, 0, 0), b"m2".to_vec(), 0, 1)
        .expect("publish to succeed");
    let head = registry.head_version("testcrate_2").expect("head to exist");
    assert_eq!(head.to_display_string(), "1.0.0");
}

#[test]
fn test_yank_and_unyank_responses() {
    let mut registry = Registry::new();
    let v = version(0, 1, 1);
    registry
        .store_package_info("testcrate_1", &v, b"m".to_vec(), 0, 1)
        .expect("publish to succeed");
    let resp = raktar::api::yank(&mut registry, "testcrate_1", &v).expect("yank to succeed");
    assert!(resp.ok);
    let resp = raktar::api::unyank(&mut registry, "testcrate_1", &v).expect("unyank to succeed");
    assert!(resp.ok);
    let r = raktar::api::unyank(&mut registry, "testcrate_1", &version(9, 9, 9));
    assert!(matches!(r, Err(RegistryError::NonExistentCrateVersion { .. })));
}
