//! The two-part key design for the external store. All of a package's version
//! records share one partition, keyed by the package name, so that "list all
//! versions" is a single-partition scan; within the partition each record's
//! sort key renders the numeric fields zero-padded, so that the store's
//! lexicographic key order is the numeric order of `major.minor.patch`, with a
//! deterministic placement of pre-release and build metadata behind them.

use vstd::prelude::*;

use crate::decimal::{
    lemma_padded_decimal_len, lemma_padded_decimal_order, lemma_u64_fits_twenty_digits,
    padded_decimal, push_padded_decimal,
};
use crate::order::{
    lemma_lex_lt_append, lemma_lex_lt_trichotomy, lex_lt, version_lt, version_prec_eq,
};
use crate::version::{spec_display_version, Version, VersionView};
use vstd::string::StringExecFns;

verus! {

/// The partition key of a package's version records: `CRT#` then the name.
pub open spec fn spec_package_key(name: Seq<char>) -> Seq<char> {
    seq!['C', 'R', 'T', '#'] + name
}

/// The key of a package's owner record: a fixed partition shared by every
/// package, with the bare name as the sort key. Package existence is one
/// conditional check on this key, and creating the record is the transactional
/// guard of a first publish.
pub open spec fn spec_details_key(name: Seq<char>) -> (Seq<char>, Seq<char>) {
    (seq!['C', 'R', 'A', 'T', 'E', 'S'], name)
}

/// Builds the owner-record key of a package.
pub fn details_key(name: &str) -> (r: (String, String))
    ensures
        r.0@ == spec_details_key(name@).0,
        r.1@ == spec_details_key(name@).1,
{
    proof {
        reveal_strlit("CRATES");
        assert("CRATES"@ =~= spec_details_key(name@).0);
    }
    ("CRATES".to_owned(), name.to_owned())
}

/// The numeric part of a version's sort key: `V#` and the three numeric
/// fields, each zero-padded to twenty digits (every `u64` fits).
pub open spec fn spec_sort_key_base(v: VersionView) -> Seq<char> {
    seq!['V', '#'] + padded_decimal(v.major as nat, 20) + seq!['.'] + padded_decimal(
        v.minor as nat,
        20,
    ) + seq!['.'] + padded_decimal(v.patch as nat, 20)
}

/// The deterministic placement of pre-release and build metadata.
pub open spec fn spec_sort_key_suffix(v: VersionView) -> Seq<char> {
    (if v.pre.len() > 0 {
        seq!['-'] + v.pre
    } else {
        Seq::<char>::empty()
    }) + (if v.build.len() > 0 {
        seq!['+'] + v.build
    } else {
        Seq::<char>::empty()
    })
}

/// The sort key of one version record within its package's partition.
pub open spec fn spec_version_sort_key(v: VersionView) -> Seq<char> {
    spec_sort_key_base(v) + spec_sort_key_suffix(v)
}

/// The key under which a version's archive is stored in the blob store,
/// derived from the name and the version alone.
pub open spec fn spec_blob_key(name: Seq<char>, v: VersionView) -> Seq<char> {
    name + seq!['-'] + spec_display_version(v) + seq!['.', 'c', 'r', 'a', 't', 'e']
}

/// Builds the partition key of a package.
pub fn package_key(name: &str) -> (r: String)
    ensures
        r@ == spec_package_key(name@),
{
    let mut out = String::new();
    proof {
        reveal_strlit("CRT#");
    }
    out.append("CRT#");
    out.append(name);
    proof {
        assert(out@ =~= spec_package_key(name@));
    }
    out
}

/// Builds the sort key of a version record.
pub fn version_sort_key(v: &Version) -> (r: String)
    ensures
        r@ == spec_version_sort_key(v@),
{
    let mut out = String::new();
    proof {
        reveal_strlit("V#");
        reveal_strlit(".");
        reveal_strlit("-");
        reveal_strlit("+");
    }
    out.append("V#");
    push_padded_decimal(&mut out, v.major, 20);
    out.append(".");
    push_padded_decimal(&mut out, v.minor, 20);
    out.append(".");
    push_padded_decimal(&mut out, v.patch, 20);
    if !v.pre.as_str().is_empty() {
        out.append("-");
        out.append(v.pre.as_str());
    }
    if !v.build.as_str().is_empty() {
        out.append("+");
        out.append(v.build.as_str());
    }
    proof {
        assert(out@ =~= spec_version_sort_key(v@));
    }
    out
}

/// Builds the blob-store key of a version's archive.
pub fn blob_key(name: &str, v: &Version) -> (r: String)
    ensures
        r@ == spec_blob_key(name@, v@),
{
    let mut out = String::new();
    proof {
        reveal_strlit("-");
        reveal_strlit(".crate");
    }
    out.append(name);
    out.append("-");
    let display = v.to_display_string();
    out.append(display.as_str());
    out.append(".crate");
    proof {
        assert(out@ =~= spec_blob_key(name@, v@));
    }
    out
}

/// Distinct package names give distinct partition keys: no two packages can
/// ever share a partition.
pub proof fn lemma_package_key_injective(a: Seq<char>, b: Seq<char>)
    ensures
        (spec_package_key(a) == spec_package_key(b)) <==> (a == b),
{
    lemma_lex_lt_append(seq!['C', 'R', 'T', '#'], seq!['C', 'R', 'T', '#'], a, b);
}

/// The store's lexicographic order on sort keys is exactly the precedence
/// order of the versions, for release versions (no pre-release or build
/// metadata); and equal sort keys mean precedence-equal versions.
pub proof fn lemma_sort_key_preserves_order(a: VersionView, b: VersionView)
    requires
        a.pre.len() == 0,
        a.build.len() == 0,
        b.pre.len() == 0,
        b.build.len() == 0,
    ensures
        lex_lt(spec_version_sort_key(a), spec_version_sort_key(b)) == version_lt(a, b),
        (spec_version_sort_key(a) == spec_version_sort_key(b)) <==> version_prec_eq(a, b),
{
    lemma_base_decides(a, b);
    assert(spec_version_sort_key(a) =~= spec_sort_key_base(a));
    assert(spec_version_sort_key(b) =~= spec_sort_key_base(b));
    if a.pre.len() == 0 && b.pre.len() == 0 {
        assert(a.pre =~= b.pre);
    }
}

/// Equal sort keys always mean equal numeric fields and an equal metadata
/// suffix, whatever the pre-release and build parts hold.
pub proof fn lemma_sort_key_separates(a: VersionView, b: VersionView)
    requires
        spec_version_sort_key(a) == spec_version_sort_key(b),
    ensures
        a.major == b.major,
        a.minor == b.minor,
        a.patch == b.patch,
        spec_sort_key_suffix(a) == spec_sort_key_suffix(b),
{
    lemma_base_decides(a, b);
    lemma_lex_lt_append(
        spec_sort_key_base(a),
        spec_sort_key_base(b),
        spec_sort_key_suffix(a),
        spec_sort_key_suffix(b),
    );
}

/// On versions without build metadata the sort key is injective outright.
pub proof fn lemma_sort_key_injective_without_build(a: VersionView, b: VersionView)
    requires
        spec_version_sort_key(a) == spec_version_sort_key(b),
        a.build.len() == 0,
        b.build.len() == 0,
    ensures
        a.major == b.major,
        a.minor == b.minor,
        a.patch == b.patch,
        a.pre == b.pre,
{
    lemma_sort_key_separates(a, b);
    assert(spec_sort_key_suffix(a) =~= (if a.pre.len() > 0 {
        seq!['-'] + a.pre
    } else {
        Seq::<char>::empty()
    }));
    assert(spec_sort_key_suffix(b) =~= (if b.pre.len() > 0 {
        seq!['-'] + b.pre
    } else {
        Seq::<char>::empty()
    }));
    if a.pre.len() > 0 && b.pre.len() > 0 {
        lemma_lex_lt_append(seq!['-'], seq!['-'], a.pre, b.pre);
    } else if a.pre.len() == 0 && b.pre.len() == 0 {
        assert(a.pre =~= b.pre);
    }
}

/// On identifiers free of `+` — and a pre-release identifier of the semantic
/// version grammar never holds one, since `+` opens the build metadata — the
/// sort key is injective outright: equal keys mean equal versions. No two
/// distinct versions of a package can ever share a record.
pub proof fn lemma_sort_key_injective(a: VersionView, b: VersionView)
    requires
        spec_version_sort_key(a) == spec_version_sort_key(b),
        forall|i: int| 0 <= i < a.pre.len() ==> a.pre[i] != '+',
        forall|i: int| 0 <= i < b.pre.len() ==> b.pre[i] != '+',
    ensures
        a.major == b.major,
        a.minor == b.minor,
        a.patch == b.patch,
        a.pre == b.pre,
        a.build == b.build,
{
    lemma_sort_key_separates(a, b);
    let sa = spec_sort_key_suffix(a);
    let sb = spec_sort_key_suffix(b);
    lemma_suffix_opens(a);
    lemma_suffix_opens(b);
    if a.pre.len() == 0 && b.pre.len() == 0 {
        assert(a.pre =~= b.pre);
        if a.build.len() == 0 && b.build.len() == 0 {
            assert(a.build =~= b.build);
        } else {
            assert(sa.len() == sb.len());
            lemma_lex_lt_append(seq!['+'], seq!['+'], a.build, b.build);
        }
    } else {
        assert(sa[0] == '-' && sb[0] == '-');
        let pa = a.pre;
        let pb = b.pre;
        let ta = if a.build.len() > 0 {
            seq!['+'] + a.build
        } else {
            Seq::<char>::empty()
        };
        let tb = if b.build.len() > 0 {
            seq!['+'] + b.build
        } else {
            Seq::<char>::empty()
        };
        assert(sa =~= seq!['-'] + (pa + ta));
        assert(sb =~= seq!['-'] + (pb + tb));
        lemma_lex_lt_append(seq!['-'], seq!['-'], pa + ta, pb + tb);
        assert(pa + ta == pb + tb);
        assert(pa.len() == pb.len()) by {
            if pa.len() < pb.len() {
                assert((pa + ta)[pa.len() as int] == ta[0]);
                assert(ta[0] == '+');
                assert((pb + tb)[pa.len() as int] == pb[pa.len() as int]);
            } else if pb.len() < pa.len() {
                assert((pb + tb)[pb.len() as int] == tb[0]);
                assert(tb[0] == '+');
                assert((pa + ta)[pb.len() as int] == pa[pb.len() as int]);
            }
        }
        lemma_lex_lt_append(pa, pb, ta, tb);
        assert(a.pre == b.pre);
        if a.build.len() == 0 && b.build.len() == 0 {
            assert(a.build =~= b.build);
        } else {
            lemma_lex_lt_append(seq!['+'], seq!['+'], a.build, b.build);
        }
    }
}

/// The metadata suffix is empty, or opens with `-` and the pre-release, or
/// opens with `+`; and where both parts stand, a `+` separates them at the end
/// of the pre-release.
proof fn lemma_suffix_opens(v: VersionView)
    ensures
        v.pre.len() == 0 && v.build.len() == 0 ==> spec_sort_key_suffix(v) =~= Seq::<
            char,
        >::empty(),
        v.pre.len() > 0 ==> spec_sort_key_suffix(v) =~= seq!['-'] + (v.pre + (if v.build.len()
            > 0 {
            seq!['+'] + v.build
        } else {
            Seq::<char>::empty()
        })),
        v.pre.len() == 0 && v.build.len() > 0 ==> spec_sort_key_suffix(v) =~= seq!['+'] + v.build,
        v.pre.len() == 0 && v.build.len() > 0 ==> spec_sort_key_suffix(v)[0] == '+',
        v.pre.len() > 0 ==> spec_sort_key_suffix(v)[0] == '-',
{
}

/// The base segments of two sort keys are ordered and separated exactly by the
/// numeric fields.
proof fn lemma_base_decides(a: VersionView, b: VersionView)
    ensures
        lex_lt(spec_sort_key_base(a), spec_sort_key_base(b)) == (if a.major != b.major {
            a.major < b.major
        } else if a.minor != b.minor {
            a.minor < b.minor
        } else {
            a.patch < b.patch
        }),
        (spec_sort_key_base(a) == spec_sort_key_base(b)) <==> (a.major == b.major && a.minor
            == b.minor && a.patch == b.patch),
        spec_sort_key_base(a).len() == spec_sort_key_base(b).len(),
{
    lemma_u64_fits_twenty_digits();
    let h = seq!['V', '#'];
    let d = seq!['.'];
    let pa1 = padded_decimal(a.major as nat, 20);
    let pa2 = padded_decimal(a.minor as nat, 20);
    let pa3 = padded_decimal(a.patch as nat, 20);
    let pb1 = padded_decimal(b.major as nat, 20);
    let pb2 = padded_decimal(b.minor as nat, 20);
    let pb3 = padded_decimal(b.patch as nat, 20);
    lemma_padded_decimal_len(a.major as nat, 20);
    lemma_padded_decimal_len(a.minor as nat, 20);
    lemma_padded_decimal_len(a.patch as nat, 20);
    lemma_padded_decimal_len(b.major as nat, 20);
    lemma_padded_decimal_len(b.minor as nat, 20);
    lemma_padded_decimal_len(b.patch as nat, 20);
    lemma_padded_decimal_order(a.major as nat, b.major as nat, 20);
    lemma_padded_decimal_order(a.minor as nat, b.minor as nat, 20);
    lemma_padded_decimal_order(a.patch as nat, b.patch as nat, 20);
    lemma_lex_lt_trichotomy(d, d);
    lemma_lex_lt_trichotomy(h, h);
    lemma_lex_lt_append(h + pa1 + d + pa2 + d, h + pb1 + d + pb2 + d, pa3, pb3);
    lemma_lex_lt_append(h + pa1 + d + pa2, h + pb1 + d + pb2, d, d);
    lemma_lex_lt_append(h + pa1 + d, h + pb1 + d, pa2, pb2);
    lemma_lex_lt_append(h + pa1, h + pb1, d, d);
    lemma_lex_lt_append(h, h, pa1, pb1);
}

} // verus!
