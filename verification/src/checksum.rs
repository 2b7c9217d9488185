//! The content checksum kept with every version record, and the one-way
//! derivation under which credentials are persisted: a Fowler–Noll–Vo fold,
//! over bytes for archive content and over code points for credential
//! strings.

use vstd::prelude::*;

use vstd::string::StrSliceExecFns;

verus! {

/// One fold step: mix one value into the state.
pub open spec fn fnv1a_step(h: u64, b: u64) -> u64 {
    (h ^ b).wrapping_mul(0x100000001b3)
}

/// The fold over a byte sequence, from a given state.
pub open spec fn fnv1a_bytes(b: Seq<u8>, h: u64) -> u64
    decreases b.len(),
{
    if b.len() == 0 {
        h
    } else {
        fnv1a_bytes(b.skip(1), fnv1a_step(h, b[0] as u64))
    }
}

/// The checksum of an archive's bytes.
pub open spec fn spec_checksum(b: Seq<u8>) -> u64 {
    fnv1a_bytes(b, 0xcbf29ce484222325)
}

/// The fold over a character sequence, from a given state.
pub open spec fn fnv1a_chars(s: Seq<char>, h: u64) -> u64
    decreases s.len(),
{
    if s.len() == 0 {
        h
    } else {
        fnv1a_chars(s.skip(1), fnv1a_step(h, s[0] as u64))
    }
}

/// The persisted derivation of a credential string: a function of its
/// characters alone, stored in place of the plaintext, which validation
/// recomputes from the presented credential.
pub open spec fn key_digest(s: Seq<char>) -> u64 {
    fnv1a_chars(s, 0xcbf29ce484222325)
}

/// Computes the checksum of an archive.
pub fn checksum(bytes: &Vec<u8>) -> (r: u64)
    ensures
        r == spec_checksum(bytes@),
{
    let n = bytes.len();
    let mut h: u64 = 0xcbf29ce484222325;
    let mut k: usize = 0;
    proof {
        assert(bytes@.skip(0) =~= bytes@);
    }
    while k < n
        invariant
            n == bytes@.len(),
            k <= n,
            spec_checksum(bytes@) == fnv1a_bytes(bytes@.skip(k as int), h),
        decreases n - k,
    {
        proof {
            assert(bytes@.skip(k as int)[0] == bytes@[k as int]);
            assert(bytes@.skip(k as int).skip(1) =~= bytes@.skip(k as int + 1));
        }
        h = (h ^ (bytes[k] as u64)).wrapping_mul(0x100000001b3);
        k = k + 1;
    }
    proof {
        assert(bytes@.skip(n as int) =~= Seq::<u8>::empty());
    }
    h
}

/// Recomputes the derivation of a credential string.
pub fn digest_str(s: &str) -> (r: u64)
    ensures
        r == key_digest(s@),
{
    let n = s.unicode_len();
    let mut h: u64 = 0xcbf29ce484222325;
    let mut k: usize = 0;
    proof {
        assert(s@.skip(0) =~= s@);
    }
    while k < n
        invariant
            n == s@.len(),
            k <= n,
            key_digest(s@) == fnv1a_chars(s@.skip(k as int), h),
        decreases n - k,
    {
        proof {
            assert(s@.skip(k as int)[0] == s@[k as int]);
            assert(s@.skip(k as int).skip(1) =~= s@.skip(k as int + 1));
        }
        let c = s.get_char(k);
        h = (h ^ (c as u64)).wrapping_mul(0x100000001b3);
        k = k + 1;
    }
    proof {
        assert(s@.skip(n as int) =~= Seq::<char>::empty());
    }
    h
}

} // verus!
