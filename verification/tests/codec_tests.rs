use raktar::codec::{decode_frame, decode_publish, encode_frame};
use raktar::error::RegistryError;

const META_V1: &str = "{\"name\":\"testcrate_1\",\"vers\":\"0.1.1\",\"deps\":[{\"optional\":false,\"default_features\":true,\"name\":\"serde\",\"features\":[\"derive\"],\"version_req\":\"^1.0.150\",\"target\":null,\"kind\":\"normal\",\"registry\":\"https://github.com/rust-lang/crates.io-index\"}],\"features\":{},\"authors\":[],\"description\":\"A private crate for testing purposes.\",\"documentation\":null,\"homepage\":null,\"readme\":null,\"readme_file\":\"README.md\",\"keywords\":[],\"categories\":[],\"license\":null,\"license_file\":null,\"repository\":null,\"badges\":{},\"links\":null,\"rust_version\":null}";

#[test]
fn test_frame_exact_bytes() {
    let metadata = vec![0x7b, 0x7d];
    let tarball = vec![9u8, 8, 7];
    let encoded = encode_frame(&metadata, &tarball);
    let expected = vec![2u8, 0, 0, 0, 0x7b, 0x7d, 3, 0, 0, 0, 9, 8, 7];
    assert_eq!(encoded, expected);
    let (m, t) = decode_frame(&encoded).expect("well-framed payload to decode");
    assert_eq!(m, metadata);
    assert_eq!(t, tarball);
}

#[test]
fn test_frame_round_trip() {
    let metadata: Vec<u8> = META_V1.as_bytes().to_vec();
    let tarball: Vec<u8> = (0u8..=255).collect();
    let encoded = encode_frame(&metadata, &tarball);
    let (m, t) = decode_frame(&encoded).expect("well-framed payload to decode");
    assert_eq!(m, metadata);
    assert_eq!(t, tarball);
}

#[test]
fn test_frame_trailing_bytes_ignored() {
    let metadata = vec![1u8, 2, 3];
    let tarball = vec![4u8, 5];
    let mut encoded = encode_frame(&metadata, &tarball);
    encoded.extend_from_slice(&[0xde, 0xad, 0xbe, 0xef]);
    let (m, t) = decode_frame(&encoded).expect("trailing bytes are not an error");
    assert_eq!(m, metadata);
    assert_eq!(t, tarball);
}

#[test]
fn test_frame_truncation_rejected() {
    let metadata = vec![1u8, 2, 3];
    let tarball = vec![4u8, 5];
    let encoded = encode_frame(&metadata, &tarball);
    for cut in 0..encoded.len() {
        let prefix: Vec<u8> = encoded[..cut].to_vec();
        let r = decode_frame(&prefix);
        assert!(
            matches!(r, Err(RegistryError::MalformedPayload)),
            "prefix of {} bytes must be malformed",
            cut
        );
    }
}

#[test]
fn test_decode_publish_reads_name_and_version() {
    let metadata: Vec<u8> = META_V1.as_bytes().to_vec();
    let tarball = vec![0x1f, 0x8b, 0x08];
    let payload = encode_frame(&metadata, &tarball);
    let data = decode_publish(&payload).expect("publish to decode");
    assert_eq!(data.name, "testcrate_1");
    assert_eq!(data.vers.major, 0);
    assert_eq!(data.vers.minor, 1);
    assert_eq!(data.vers.patch, 1);
    assert_eq!(data.vers.pre, "");
    assert_eq!(data.vers.build, "");
    assert_eq!(data.metadata, metadata);
    assert_eq!(data.tarball, tarball);
}

#[test]
fn test_decode_publish_parses_prerelease_and_build() {
    let metadata: Vec<u8> = b"{\"name\":\"x\",\"vers\":\"1.2.3-alpha.1+build5\"}".to_vec();
    let payload = encode_frame(&metadata, &vec![0u8]);
    let data = decode_publish(&payload).expect("publish to decode");
    assert_eq!(data.vers.major, 1);
    assert_eq!(data.vers.minor, 2);
    assert_eq!(data.vers.patch, 3);
    assert_eq!(data.vers.pre, "alpha.1");
    assert_eq!(data.vers.build, "build5");
}

#[test]
fn test_decode_publish_rejects_bad_json() {
    let payload = encode_frame(&b"not json at all".to_vec(), &vec![0u8]);
    assert!(matches!(decode_publish(&payload), Err(RegistryError::MalformedPayload)));
}

#[test]
fn test_decode_publish_rejects_missing_vers() {
    let payload = encode_frame(&b"{\"name\":\"x\"}".to_vec(), &vec![0u8]);
    assert!(matches!(decode_publish(&payload), Err(RegistryError::MalformedPayload)));
}

#[test]
fn test_decode_publish_rejects_invalid_semver() {
    let payload = encode_frame(&b"{\"name\":\"x\",\"vers\":\"1.2\"}".to_vec(), &vec![0u8]);
    assert!(matches!(decode_publish(&payload), Err(RegistryError::MalformedPayload)));
}

#[test]
fn test_decode_publish_ignores_unknown_fields() {
    let payload = encode_frame(
        &b"{\"name\":\"x\",\"vers\":\"0.0.1\",\"unknown_field\":[1,2,{\"deep\":true}]}".to_vec(),
        &vec![0u8],
    );
    let data = decode_publish(&payload).expect("unknown fields are ignored");
    assert_eq!(data.name, "x");
    assert_eq!(data.vers.patch, 1);
}
