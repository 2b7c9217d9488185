use raktar::checksum::checksum;
use raktar::codec::encode_frame;
use raktar::error::RegistryError;
use raktar::publish::{publish, BlobStore};
use raktar::registry::Registry;
use raktar::version::Version;
use raktar::writes::{apply_plan, plan_publish, store_through_plan, WritePlan};

fn payload(name: &str, vers: &str, tarball: &[u8]) -> Vec<u8> {
    let metadata = format!("{{\"name\":\"{}\",\"vers\":\"{}\"}}", name, vers).into_bytes();
    encode_frame(&metadata, &tarball.to_vec())
}

#[test]
fn test_publish_pipeline_stores_record_and_blob() {
    let mut registry = Registry::new();
    let mut blobs = BlobStore::new();
    let tarball = vec![0x1f, 0x8b, 1, 2, 3];
    let body = payload("testcrate_1", "0.1.1", &tarball);

    let v = publish(&mut registry, &mut blobs, 1, &body).expect("publish to succeed");
    assert_eq!(v.to_display_string(), "0.1.1");

    let records = registry.get_package_info("testcrate_1").expect("package to exist");
    assert_eq!(records.len(), 1);
    assert_eq!(records[0].checksum, checksum(&tarball));
    assert!(!records[0].yanked);

    let stored = blobs.get("testcrate_1-0.1.1.crate").expect("the blob to be retrievable");
    assert_eq!(stored, tarball);
}

#[test]
fn test_publish_malformed_payload_changes_nothing() {
    let mut registry = Registry::new();
    let mut blobs = BlobStore::new();
    let r = publish(&mut registry, &mut blobs, 1, &vec![1u8, 2, 3]);
    assert!(matches!(r, Err(RegistryError::MalformedPayload)));
    assert!(matches!(
        registry.get_package_info("testcrate_1"),
        Err(RegistryError::NonExistentPackageInfo { .. })
    ));
}

#[test]
fn test_publish_duplicate_keeps_first_record() {
    let mut registry = Registry::new();
    let mut blobs = BlobStore::new();
    let first = payload("testcrate_1", "0.1.1", &[1, 1, 1]);
    let second = payload("testcrate_1", "0.1.1", &[2, 2, 2]);

    publish(&mut registry, &mut blobs, 1, &first).expect("first publish to succeed");
    let r = publish(&mut registry, &mut blobs, 1, &second);
    assert!(matches!(r, Err(RegistryError::DuplicateCrateVersion { .. })));

    // The metadata record is untouched; the rewritten blob is an accepted
    // orphan of the failed publish.
    let records = registry.get_package_info("testcrate_1").expect("package to exist");
    assert_eq!(records.len(), 1);
    assert_eq!(records[0].checksum, checksum(&vec![1, 1, 1]));
}

#[test]
fn test_publish_two_versions_in_order() {
    let mut registry = Registry::new();
    let mut blobs = BlobStore::new();
    publish(&mut registry, &mut blobs, 1, &payload("testcrate_1", "0.1.1", &[1]))
        .expect("publish to succeed");
    publish(&mut registry, &mut blobs, 1, &payload("testcrate_1", "0.1.2", &[2]))
        .expect("publish to succeed");
    let records = registry.get_package_info("testcrate_1").expect("package to exist");
    let versions: Vec<String> = records.iter().map(|r| r.version.to_display_string()).collect();
    assert_eq!(versions, vec!["0.1.1", "0.1.2"]);
    let head = registry.head_version("testcrate_1").expect("head to exist");
    assert_eq!(head.to_display_string(), "0.1.2");
}

fn release(major: u64, minor: u64, patch: u64) -> Version {
    Version { major, minor, patch, pre: String::new(), build: String::new() }
}

#[test]
fn test_concurrent_first_publish_race_one_winner() {
    // Two publishers race to create the same new package: both read the state
    // before either write, so both plan a package creation.
    let mut registry = Registry::new();
    let package_exists = false;

    let plan1 = plan_publish(package_exists, "testcrate_1", &release(0, 1, 1), b"m1".to_vec(), 1, 41);
    let plan2 = plan_publish(package_exists, "testcrate_1", &release(0, 1, 2), b"m2".to_vec(), 2, 42);
    assert!(matches!(plan1, WritePlan::CreatePackage { .. }));

    let r1 = apply_plan(&mut registry, plan1);
    assert!(r1.is_ok());
    let r2 = apply_plan(&mut registry, plan2);
    assert!(matches!(r2, Err(RegistryError::WriteConflict)));

    // Exactly one creation: the winner's owner set, the winner's version.
    assert_eq!(registry.list_owners("testcrate_1").expect("owners to exist"), vec![41]);
    let records = registry.get_package_info("testcrate_1").expect("package to exist");
    assert_eq!(records.len(), 1);
    assert_eq!(records[0].version.to_display_string(), "0.1.1");
}

#[test]
fn test_conditional_version_put_rejects_duplicates() {
    let mut registry = Registry::new();
    let create = plan_publish(false, "testcrate_1", &release(0, 1, 1), b"m1".to_vec(), 1, 1);
    apply_plan(&mut registry, create).expect("creation to succeed");

    let add = plan_publish(true, "testcrate_1", &release(0, 1, 2), b"m2".to_vec(), 2, 1);
    apply_plan(&mut registry, add).expect("a new version to be accepted");

    let stale = plan_publish(true, "testcrate_1", &release(0, 1, 2), b"m3".to_vec(), 3, 1);
    let r = apply_plan(&mut registry, stale);
    match r {
        Err(RegistryError::DuplicateCrateVersion { crate_name, version }) => {
            assert_eq!(crate_name, "testcrate_1");
            assert_eq!(version.to_display_string(), "0.1.2");
        },
        _ => panic!("a racing duplicate put must fail with the duplicate error"),
    }
    let records = registry.get_package_info("testcrate_1").expect("package to exist");
    assert_eq!(records.len(), 2);
    assert_eq!(records[1].checksum, 2);
}

#[test]
fn test_store_through_plan_enforces_uniqueness() {
    let mut registry = Registry::new();
    store_through_plan(&mut registry, "testcrate_1", &release(0, 1, 1), b"m1".to_vec(), 1, 5)
        .expect("the first publish to succeed");
    store_through_plan(&mut registry, "testcrate_1", &release(0, 1, 2), b"m2".to_vec(), 2, 5)
        .expect("a second version to succeed");
    let r = store_through_plan(&mut registry, "testcrate_1", &release(0, 1, 2), b"m3".to_vec(), 3, 5);
    assert!(matches!(r, Err(RegistryError::DuplicateCrateVersion { .. })));
    let records = registry.get_package_info("testcrate_1").expect("package to exist");
    assert_eq!(records.len(), 2);
    assert_eq!(registry.list_owners("testcrate_1").expect("owners to exist"), vec![5]);
}

#[test]
fn test_blob_store_overwrites_by_key() {
    let mut blobs = BlobStore::new();
    blobs.put("k1".to_string(), vec![1, 2]);
    blobs.put("k2".to_string(), vec![3]);
    blobs.put("k1".to_string(), vec![9, 9]);
    assert_eq!(blobs.get("k1").expect("k1 to be present"), vec![9, 9]);
    assert_eq!(blobs.get("k2").expect("k2 to be present"), vec![3]);
    assert!(blobs.get("k3").is_none());
}
