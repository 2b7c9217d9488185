use raktar::checksum::checksum;
use raktar::keys::{blob_key, details_key, package_key, version_sort_key};
use raktar::order::{lex_lt_str, lt_version};
use raktar::version::{eq_version, Version};

fn version(major: u64, minor: u64, patch: u64) -> Version {
    Version { major, minor, patch, pre: String::new(), build: String::new() }
}

#[test]
fn test_package_key_shape() {
    assert_eq!(package_key("testcrate_1"), "CRT#testcrate_1");
    assert_eq!(package_key(""), "CRT#");
}

#[test]
fn test_details_key_shape() {
    let (pk, sk) = details_key("testcrate_1");
    assert_eq!(pk, "CRATES");
    assert_eq!(sk, "testcrate_1");
}

#[test]
fn test_version_sort_key_shape() {
    let key = version_sort_key(&version(0, 1, 2));
    assert_eq!(
        key,
        "V#00000000000000000000.00000000000000000001.00000000000000000002"
    );
    let pre = Version {
        major: 1,
        minor: 0,
        patch: 0,
        pre: "alpha".to_string(),
        build: "b7".to_string(),
    };
    assert_eq!(
        version_sort_key(&pre),
        "V#00000000000000000001.00000000000000000000.00000000000000000000-alpha+b7"
    );
}

#[test]
fn test_sort_key_order_is_numeric_not_lexical() {
    // "0.1.10" after "0.1.2": plain string order of the rendered versions gets
    // this wrong, the padded sort key gets it right.
    let k2 = version_sort_key(&version(0, 1, 2));
    let k10 = version_sort_key(&version(0, 1, 10));
    assert!(k2 < k10);
    assert!(version_sort_key(&version(0, 9, 0)) < version_sort_key(&version(0, 10, 0)));
    assert!(version_sort_key(&version(2, 0, 0)) < version_sort_key(&version(10, 0, 0)));
}

#[test]
fn test_display_string() {
    assert_eq!(version(0, 1, 2).to_display_string(), "0.1.2");
    assert_eq!(version(10, 0, 305).to_display_string(), "10.0.305");
    let full = Version {
        major: 1,
        minor: 2,
        patch: 3,
        pre: "alpha.1".to_string(),
        build: "build5".to_string(),
    };
    assert_eq!(full.to_display_string(), "1.2.3-alpha.1+build5");
}

#[test]
fn test_blob_key_shape() {
    assert_eq!(blob_key("testcrate_1", &version(0, 1, 1)), "testcrate_1-0.1.1.crate");
}

#[test]
fn test_version_equality() {
    let a = version(1, 2, 3);
    let b = version(1, 2, 3);
    assert!(eq_version(&a, &b));
    assert!(eq_version(&a, &a.duplicate()));
    let pre = Version {
        major: 1,
        minor: 2,
        patch: 3,
        pre: "rc.1".to_string(),
        build: String::new(),
    };
    assert!(!eq_version(&a, &pre));
    assert!(!eq_version(&a, &version(1, 2, 4)));
}

#[test]
fn test_version_precedence() {
    assert!(lt_version(&version(0, 1, 2), &version(0, 1, 10)));
    assert!(lt_version(&version(0, 9, 9), &version(1, 0, 0)));
    assert!(!lt_version(&version(1, 0, 0), &version(1, 0, 0)));
    let alpha = Version {
        major: 1,
        minor: 0,
        patch: 0,
        pre: "alpha".to_string(),
        build: String::new(),
    };
    let beta = Version {
        major: 1,
        minor: 0,
        patch: 0,
        pre: "beta".to_string(),
        build: String::new(),
    };
    // A pre-release precedes its release; pre-releases order by code point.
    assert!(lt_version(&alpha, &version(1, 0, 0)));
    assert!(lt_version(&alpha, &beta));
    assert!(!lt_version(&beta, &alpha));
}

#[test]
fn test_lex_lt_str() {
    assert!(lex_lt_str("abc", "abd"));
    assert!(lex_lt_str("ab", "abc"));
    assert!(!lex_lt_str("abc", "abc"));
    assert!(!lex_lt_str("b", "abc"));
    assert!(lex_lt_str("", "a"));
    assert!(!lex_lt_str("", ""));
}

#[test]
fn test_checksum_values() {
    // The offset basis of the fold, untouched on empty input.
    assert_eq!(checksum(&Vec::new()), 0xcbf29ce484222325);
    let one = checksum(&vec![0x61]);
    let expected = (0xcbf29ce484222325u64 ^ 0x61).wrapping_mul(0x100000001b3);
    assert_eq!(one, expected);
    assert_ne!(checksum(&vec![1, 2]), checksum(&vec![2, 1]));
}
