//! The publish payload codec: a little-endian 32-bit length, that many bytes
//! of UTF-8 JSON metadata, a second length, and that many tarball bytes, which
//! pass through uninterpreted. Trailing bytes are ignored; a payload shorter
//! than a declared length demands is malformed. Reading the `name` and `vers`
//! fields out of the JSON document is delegated to an outside parser behind a
//! trusted wrapper; unknown fields never disturb it.

use vstd::prelude::*;

use crate::error::RegistryError;
use crate::version::{parse_version, parsed_version, Version};

verus! {

/// The little-endian 32-bit value of the four bytes at offset `i`.
pub open spec fn u32_le_at(d: Seq<u8>, i: int) -> nat {
    d[i] as nat + 256 * (d[i + 1] as nat) + 65536 * (d[i + 2] as nat) + 16777216 * (d[i
        + 3] as nat)
}

/// The declared metadata length.
pub open spec fn meta_len(d: Seq<u8>) -> nat {
    u32_le_at(d, 0)
}

/// The declared tarball length (meaningful once the metadata fits).
pub open spec fn tar_len(d: Seq<u8>) -> nat {
    u32_le_at(d, 4 + meta_len(d) as int)
}

/// Whether the payload is well-framed: each declared length is satisfied by
/// the bytes that remain.
pub open spec fn frame_ok(d: Seq<u8>) -> bool {
    &&& d.len() >= 4
    &&& d.len() >= 8 + meta_len(d)
    &&& d.len() >= 8 + meta_len(d) + tar_len(d)
}

/// The metadata bytes of a well-framed payload.
pub open spec fn frame_metadata(d: Seq<u8>) -> Seq<u8> {
    d.subrange(4, 4 + meta_len(d) as int)
}

/// The tarball bytes of a well-framed payload.
pub open spec fn frame_tarball(d: Seq<u8>) -> Seq<u8> {
    d.subrange(8 + meta_len(d) as int, 8 + meta_len(d) as int + tar_len(d) as int)
}

/// A 32-bit value as its four little-endian bytes.
pub open spec fn u32_le_bytes(n: nat) -> Seq<u8> {
    seq![
        (n % 256) as u8,
        ((n / 256) % 256) as u8,
        ((n / 65536) % 256) as u8,
        ((n / 16777216) % 256) as u8,
    ]
}

/// The exact bytes of the binary layout for a given metadata and tarball.
pub open spec fn spec_encode_frame(m: Seq<u8>, t: Seq<u8>) -> Seq<u8> {
    u32_le_bytes(m.len()) + m + u32_le_bytes(t.len()) + t
}

/// Reading four little-endian bytes back gives the value they were made from.
proof fn lemma_u32_le_bytes_value(n: nat)
    requires
        n < 0x1_0000_0000,
    ensures
        u32_le_bytes(n)[0] as nat + 256 * (u32_le_bytes(n)[1] as nat) + 65536 * (u32_le_bytes(
            n,
        )[2] as nat) + 16777216 * (u32_le_bytes(n)[3] as nat) == n,
{
    assert(n == n % 256 + 256 * ((n / 256) % 256) + 65536 * ((n / 65536) % 256) + 16777216 * ((n
        / 16777216) % 256)) by {
        assert(n / 16777216 < 256);
        assert(n == 256 * (n / 256) + n % 256);
        assert(n / 256 == 256 * (n / 65536) + (n / 256) % 256) by {
            assert(n / 256 / 256 == n / 65536) by (nonlinear_arith);
            assert(n / 256 == 256 * (n / 256 / 256) + (n / 256) % 256);
        }
        assert(n / 65536 == 256 * (n / 16777216) + (n / 65536) % 256) by {
            assert(n / 65536 / 256 == n / 16777216) by (nonlinear_arith);
            assert(n / 65536 == 256 * (n / 65536 / 256) + (n / 65536) % 256);
        }
    }
}

/// Reads the little-endian 32-bit length at offset `i`.
fn read_u32_le(data: &Vec<u8>, i: usize) -> (r: u32)
    requires
        i + 4 <= data@.len(),
    ensures
        r as nat == u32_le_at(data@, i as int),
{
    let n = data.len();
    proof {
        assert(i + 4 <= n);
    }
    let b0 = data[i] as u32;
    let b1 = data[i + 1] as u32;
    let b2 = data[i + 2] as u32;
    let b3 = data[i + 3] as u32;
    b0 + 256 * b1 + 65536 * b2 + 16777216 * b3
}

/// Copies `len` bytes starting at `start`.
fn copy_range(data: &Vec<u8>, start: usize, len: usize) -> (r: Vec<u8>)
    requires
        start + len <= data@.len(),
    ensures
        r@ == data@.subrange(start as int, start as int + len as int),
{
    let n = data.len();
    proof {
        assert(start + len <= n);
    }
    let mut out: Vec<u8> = Vec::new();
    let mut k: usize = 0;
    while k < len
        invariant
            n == data@.len(),
            start + len <= n,
            k <= len,
            out@.len() == k,
            forall|l: int| 0 <= l < k ==> out@[l] == data@[start + l],
        decreases len - k,
    {
        out.push(data[start + k]);
        k = k + 1;
    }
    proof {
        assert(out@ =~= data@.subrange(start as int, start as int + len as int));
    }
    out
}

/// Splits a payload into its metadata and tarball bytes, or fails on any
/// payload whose declared lengths its bytes cannot satisfy. Trailing bytes
/// after the tarball are ignored.
pub fn decode_frame(data: &Vec<u8>) -> (r: Result<(Vec<u8>, Vec<u8>), RegistryError>)
    ensures
        r is Ok <==> frame_ok(data@),
        r matches Ok(p) ==> p.0@ == frame_metadata(data@) && p.1@ == frame_tarball(data@),
        r matches Err(e) ==> e is MalformedPayload,
{
    if data.len() < 4 {
        return Err(RegistryError::MalformedPayload);
    }
    let ml = read_u32_le(data, 0) as usize;
    let rest = data.len() - 4;
    if rest < ml {
        return Err(RegistryError::MalformedPayload);
    }
    if rest - ml < 4 {
        return Err(RegistryError::MalformedPayload);
    }
    let tl = read_u32_le(data, 4 + ml) as usize;
    if rest - ml - 4 < tl {
        return Err(RegistryError::MalformedPayload);
    }
    let metadata = copy_range(data, 4, ml);
    let tarball = copy_range(data, 8 + ml, tl);
    Ok((metadata, tarball))
}

/// Appends a 32-bit length in little-endian order.
fn push_u32_le(out: &mut Vec<u8>, v: u32)
    ensures
        final (out)@ == old(out)@ + u32_le_bytes(v as nat),
{
    out.push((v % 256) as u8);
    out.push(((v / 256) % 256) as u8);
    out.push(((v / 65536) % 256) as u8);
    out.push(((v / 16777216) % 256) as u8);
    proof {
        assert(out@ =~= old(out)@ + u32_le_bytes(v as nat));
    }
}

/// Produces the exact binary layout for a metadata document and a tarball.
pub fn encode_frame(metadata: &Vec<u8>, tarball: &Vec<u8>) -> (r: Vec<u8>)
    requires
        metadata@.len() < 0x1_0000_0000,
        tarball@.len() < 0x1_0000_0000,
        metadata@.len() + tarball@.len() + 8 <= usize::MAX,
    ensures
        r@ == spec_encode_frame(metadata@, tarball@),
{
    let mut out: Vec<u8> = Vec::new();
    push_u32_le(&mut out, metadata.len() as u32);
    let mut k: usize = 0;
    let ghost after_len = out@;
    while k < metadata.len()
        invariant
            k <= metadata@.len(),
            out@ == after_len + metadata@.take(k as int),
        decreases metadata@.len() - k,
    {
        out.push(metadata[k]);
        k = k + 1;
        proof {
            assert(after_len + metadata@.take(k - 1) + seq![metadata@[k - 1]] =~= after_len
                + metadata@.take(k as int));
        }
    }
    push_u32_le(&mut out, tarball.len() as u32);
    let ghost after_tlen = out@;
    let mut k2: usize = 0;
    while k2 < tarball.len()
        invariant
            k2 <= tarball@.len(),
            out@ == after_tlen + tarball@.take(k2 as int),
        decreases tarball@.len() - k2,
    {
        out.push(tarball[k2]);
        k2 = k2 + 1;
        proof {
            assert(after_tlen + tarball@.take(k2 - 1) + seq![tarball@[k2 - 1]] =~= after_tlen
                + tarball@.take(k2 as int));
        }
    }
    proof {
        assert(metadata@.take(metadata@.len() as int) =~= metadata@);
        assert(tarball@.take(tarball@.len() as int) =~= tarball@);
        assert(out@ =~= spec_encode_frame(metadata@, tarball@));
    }
    out
}

/// Round trip: the encoded layout of any pair is well-framed, and decoding it
/// gives back exactly the metadata and the tarball bytes.
pub proof fn lemma_frame_round_trip(m: Seq<u8>, t: Seq<u8>)
    requires
        m.len() < 0x1_0000_0000,
        t.len() < 0x1_0000_0000,
    ensures
        frame_ok(spec_encode_frame(m, t)),
        frame_metadata(spec_encode_frame(m, t)) == m,
        frame_tarball(spec_encode_frame(m, t)) == t,
{
    let e = spec_encode_frame(m, t);
    lemma_u32_le_bytes_value(m.len());
    lemma_u32_le_bytes_value(t.len());
    assert forall|i: int| 0 <= i < 4 implies e[i] == u32_le_bytes(m.len())[i] by {}
    assert(meta_len(e) == m.len());
    assert forall|i: int| 0 <= i < 4 implies e[4 + m.len() + i] == u32_le_bytes(t.len())[i] by {}
    assert(tar_len(e) == t.len());
    assert(frame_metadata(e) =~= m);
    assert(frame_tarball(e) =~= t);
}

/// Truncation: every proper prefix of an encoded layout leaves some declared
/// length unsatisfied and is rejected as malformed.
pub proof fn lemma_frame_truncation_rejected(m: Seq<u8>, t: Seq<u8>, cut: int)
    requires
        m.len() < 0x1_0000_0000,
        t.len() < 0x1_0000_0000,
        0 <= cut < spec_encode_frame(m, t).len(),
    ensures
        !frame_ok(spec_encode_frame(m, t).take(cut)),
{
    let e = spec_encode_frame(m, t);
    let p = e.take(cut);
    lemma_frame_round_trip(m, t);
    assert(e.len() == 8 + m.len() + t.len());
    if cut < 4 {
    } else {
        assert forall|i: int| 0 <= i < 4 implies p[i] == e[i] by {}
        assert(meta_len(p) == meta_len(e));
        if cut < 8 + m.len() {
        } else {
            assert forall|i: int| 0 <= i < 4 implies #[trigger] p[4 + meta_len(p) + i] == e[4
                + meta_len(e) + i] by {}
            assert(tar_len(p) == tar_len(e));
        }
    }
}

/// What the outside JSON parser finds in a metadata document: `Some` exactly
/// on documents that parse as a JSON object whose `name` and `vers` members
/// are strings, carrying those two strings; any other members are ignored.
pub uninterp spec fn json_name_vers(b: Seq<u8>) -> Option<(Seq<char>, Seq<char>)>;

/// Relies on serde_json: `from_slice` parses a JSON document into a value,
/// `get` looks a member up in an object, and `as_str` gives a string member
/// back. Together they read the `name` and `vers` fields and fail on anything
/// that is not a JSON object carrying both as strings.
#[verifier::external_body]
fn extract_name_vers(b: &Vec<u8>) -> (r: Option<(String, String)>)
    ensures
        r matches Some(p) ==> json_name_vers(b@) == Some((p.0@, p.1@)),
        r is None ==> json_name_vers(b@) is None,
{
    let v: serde_json::Value = match serde_json::from_slice(b.as_slice()) {
        Ok(v) => v,
        Err(_) => return None,
    };
    let name = match v.get("name").and_then(|f| f.as_str()) {
        Some(s) => s.to_owned(),
        None => return None,
    };
    let vers = match v.get("vers").and_then(|f| f.as_str()) {
        Some(s) => s.to_owned(),
        None => return None,
    };
    Some((name, vers))
}

/// A decoded publish payload: the package name and version the metadata
/// declares, the raw metadata document, and the tarball bytes.
pub struct PublishData {
    pub name: String,
    pub vers: Version,
    pub metadata: Vec<u8>,
    pub tarball: Vec<u8>,
}

/// Whether an upload decodes: well-framed, the metadata document carries
/// `name` and `vers`, and `vers` is a semantic version.
pub open spec fn publish_payload_ok(d: Seq<u8>) -> bool {
    &&& frame_ok(d)
    &&& json_name_vers(frame_metadata(d)) is Some
    &&& parsed_version(json_name_vers(frame_metadata(d)).unwrap().1) is Some
}

/// The package name a decodable upload declares.
pub open spec fn payload_name(d: Seq<u8>) -> Seq<char> {
    json_name_vers(frame_metadata(d)).unwrap().0
}

/// The version a decodable upload declares.
pub open spec fn payload_version(d: Seq<u8>) -> crate::version::VersionView {
    parsed_version(json_name_vers(frame_metadata(d)).unwrap().1).unwrap()
}

/// Decodes an untrusted upload, or fails with `MalformedPayload` exactly when
/// the frame, the metadata document, or the declared version is broken. The
/// tarball bytes pass through untouched.
pub fn decode_publish(data: &Vec<u8>) -> (r: Result<PublishData, RegistryError>)
    ensures
        r is Ok <==> publish_payload_ok(data@),
        r matches Ok(p) ==> {
            &&& json_name_vers(frame_metadata(data@)) matches Some(nv) && p.name@ == nv.0
                && parsed_version(nv.1) == Some(p.vers@)
            &&& p.metadata@ == frame_metadata(data@)
            &&& p.tarball@ == frame_tarball(data@)
        },
        r matches Err(e) ==> e is MalformedPayload,
{
    let (metadata, tarball) = match decode_frame(data) {
        Ok(p) => p,
        Err(e) => { return Err(e) },
    };
    let (name, vers_str) = match extract_name_vers(&metadata) {
        Some(p) => p,
        None => { return Err(RegistryError::MalformedPayload) },
    };
    let vers = match parse_version(vers_str.as_str()) {
        Some(v) => v,
        None => { return Err(RegistryError::MalformedPayload) },
    };
    Ok(PublishData { name, vers, metadata, tarball })
}

} // verus!
