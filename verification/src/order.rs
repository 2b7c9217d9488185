//! The order on versions that the read side's "head version" query and the
//! sort-key design rest on: numeric order of `major.minor.patch`, a release
//! above every pre-release of the same triple, pre-releases by code-point
//! order of their identifiers, and build metadata taking no part.

use vstd::prelude::*;

use crate::version::{Version, VersionView};
use vstd::string::StrSliceExecFns;

verus! {

/// Lexicographic order on character sequences by code point; a proper prefix
/// comes before every extension of it.
pub open spec fn lex_lt(a: Seq<char>, b: Seq<char>) -> bool
    decreases a.len(),
{
    if b.len() == 0 {
        false
    } else if a.len() == 0 {
        true
    } else if a[0] != b[0] {
        a[0] < b[0]
    } else {
        lex_lt(a.skip(1), b.skip(1))
    }
}

/// `lex_lt` is a strict total order: any two sequences compare one way, the
/// other way, or are equal, and never two of those at once.
pub proof fn lemma_lex_lt_trichotomy(a: Seq<char>, b: Seq<char>)
    ensures
        lex_lt(a, b) || lex_lt(b, a) || a == b,
        lex_lt(a, b) ==> !lex_lt(b, a),
        lex_lt(a, b) ==> a != b,
    decreases a.len(),
{
    if a.len() == 0 || b.len() == 0 {
        if a.len() == 0 && b.len() == 0 {
            assert(a =~= b);
        }
    } else if a[0] == b[0] {
        lemma_lex_lt_trichotomy(a.skip(1), b.skip(1));
        if a.skip(1) == b.skip(1) {
            assert forall|i: int| 0 <= i < a.len() implies a[i] == b[i] by {
                if i > 0 {
                    assert(a.skip(1)[i - 1] == a[i]);
                    assert(b.skip(1)[i - 1] == b[i]);
                }
            }
            assert(a =~= b);
        }
        if a == b {
            assert(a.skip(1) =~= b.skip(1));
        }
    }
}

/// `lex_lt` is transitive.
pub proof fn lemma_lex_lt_trans(a: Seq<char>, b: Seq<char>, c: Seq<char>)
    requires
        lex_lt(a, b),
        lex_lt(b, c),
    ensures
        lex_lt(a, c),
    decreases a.len(),
{
    if a.len() == 0 || c.len() == 0 {
    } else if a[0] == b[0] && b[0] == c[0] {
        lemma_lex_lt_trans(a.skip(1), b.skip(1), c.skip(1));
    }
}

/// Appending one character to each of two equally long sequences compares
/// them by the old sequences first and by the new characters on a tie.
pub proof fn lemma_lex_lt_push(x: Seq<char>, y: Seq<char>, p: char, q: char)
    requires
        x.len() == y.len(),
    ensures
        lex_lt(x.push(p), y.push(q)) == (lex_lt(x, y) || (x == y && p < q)),
        x.push(p) == y.push(q) <==> (x == y && p == q),
    decreases x.len(),
{
    if x.push(p) == y.push(q) {
        assert(p == x.push(p)[x.len() as int]);
        assert(q == y.push(q)[y.len() as int]);
        assert forall|i: int| 0 <= i < x.len() implies x[i] == y[i] by {
            assert(x[i] == x.push(p)[i]);
            assert(y[i] == y.push(q)[i]);
        }
        assert(x =~= y);
    }
    if x == y && p == q {
        assert(x.push(p) =~= y.push(q));
    }
    if x.len() == 0 {
        assert(x =~= y);
        assert(x.push(p)[0] == p);
        assert(y.push(q)[0] == q);
        assert(x.push(p).skip(1) =~= Seq::<char>::empty());
        assert(y.push(q).skip(1) =~= Seq::<char>::empty());
        assert(!lex_lt(Seq::<char>::empty(), Seq::<char>::empty()));
        assert(!lex_lt(x, y));
    } else {
        assert(x.push(p)[0] == x[0]);
        assert(y.push(q)[0] == y[0]);
        assert(x.push(p).skip(1) =~= x.skip(1).push(p));
        assert(y.push(q).skip(1) =~= y.skip(1).push(q));
        lemma_lex_lt_push(x.skip(1), y.skip(1), p, q);
        if x[0] == y[0] && x.skip(1) == y.skip(1) {
            assert forall|i: int| 0 <= i < x.len() implies x[i] == y[i] by {
                if i > 0 {
                    assert(x.skip(1)[i - 1] == x[i]);
                    assert(y.skip(1)[i - 1] == y[i]);
                }
            }
            assert(x =~= y);
        }
        if x == y {
            assert(x.skip(1) =~= y.skip(1));
        }
    }
}

/// Two sequences that open with equally long prefixes compare by the prefixes
/// first and by the remainders on equal prefixes; they are equal exactly when
/// both parts are.
pub proof fn lemma_lex_lt_append(x: Seq<char>, y: Seq<char>, u: Seq<char>, v: Seq<char>)
    requires
        x.len() == y.len(),
    ensures
        lex_lt(x + u, y + v) == (lex_lt(x, y) || (x == y && lex_lt(u, v))),
        (x + u == y + v) <==> (x == y && u == v),
    decreases x.len(),
{
    if x + u == y + v {
        assert forall|i: int| 0 <= i < x.len() implies x[i] == y[i] by {
            assert(x[i] == (x + u)[i]);
            assert(y[i] == (y + v)[i]);
        }
        assert(x =~= y);
        assert((x + u).len() == (y + v).len());
        assert forall|i: int| 0 <= i < u.len() implies u[i] == v[i] by {
            assert(u[i] == (x + u)[x.len() + i]);
            assert(v[i] == (y + v)[y.len() + i]);
        }
        assert(u =~= v);
    }
    if x == y && u == v {
        assert(x + u =~= y + v);
    }
    if x.len() == 0 {
        assert(x =~= y);
        assert(x + u =~= u);
        assert(y + v =~= v);
    } else {
        assert((x + u)[0] == x[0]);
        assert((y + v)[0] == y[0]);
        assert((x + u).skip(1) =~= x.skip(1) + u);
        assert((y + v).skip(1) =~= y.skip(1) + v);
        lemma_lex_lt_append(x.skip(1), y.skip(1), u, v);
        if x[0] == y[0] && x.skip(1) == y.skip(1) {
            assert forall|i: int| 0 <= i < x.len() implies x[i] == y[i] by {
                if i > 0 {
                    assert(x.skip(1)[i - 1] == x[i]);
                    assert(y.skip(1)[i - 1] == y[i]);
                }
            }
            assert(x =~= y);
        }
        if x == y {
            assert(x.skip(1) =~= y.skip(1));
        }
    }
}

/// Pre-release order: an empty pre-release (a full release) comes after every
/// pre-release; two pre-releases compare by code point.
pub open spec fn pre_lt(a: Seq<char>, b: Seq<char>) -> bool {
    if a.len() == 0 {
        false
    } else if b.len() == 0 {
        true
    } else {
        lex_lt(a, b)
    }
}

/// The precedence order on versions.
pub open spec fn version_lt(a: VersionView, b: VersionView) -> bool {
    if a.major != b.major {
        a.major < b.major
    } else if a.minor != b.minor {
        a.minor < b.minor
    } else if a.patch != b.patch {
        a.patch < b.patch
    } else {
        pre_lt(a.pre, b.pre)
    }
}

/// Precedence-equal: equal numeric fields and equal pre-release. Build
/// metadata takes no part in precedence.
pub open spec fn version_prec_eq(a: VersionView, b: VersionView) -> bool {
    a.major == b.major && a.minor == b.minor && a.patch == b.patch && a.pre == b.pre
}

pub open spec fn version_le(a: VersionView, b: VersionView) -> bool {
    version_lt(a, b) || version_prec_eq(a, b)
}

/// Precedence is a total order up to `version_prec_eq`, and strict order
/// excludes both the converse order and precedence equality.
pub proof fn lemma_version_order_total(a: VersionView, b: VersionView)
    ensures
        version_lt(a, b) || version_lt(b, a) || version_prec_eq(a, b),
        version_lt(a, b) ==> !version_lt(b, a),
        version_lt(a, b) ==> !version_prec_eq(a, b),
{
    lemma_lex_lt_trichotomy(a.pre, b.pre);
}

/// `version_le` is transitive.
pub proof fn lemma_version_le_trans(a: VersionView, b: VersionView, c: VersionView)
    requires
        version_le(a, b),
        version_le(b, c),
    ensures
        version_le(a, c),
{
    if version_lt(a, b) && version_lt(b, c) && version_prec_eq(a, c) {
        lemma_version_order_total(a, b);
        lemma_lex_lt_trichotomy(a.pre, b.pre);
        lemma_lex_lt_trichotomy(b.pre, c.pre);
        if lex_lt(a.pre, b.pre) && lex_lt(b.pre, c.pre) {
            lemma_lex_lt_trans(a.pre, b.pre, c.pre);
            lemma_lex_lt_trichotomy(a.pre, c.pre);
        }
    } else if version_lt(a, b) && version_lt(b, c) {
        if lex_lt(a.pre, b.pre) && lex_lt(b.pre, c.pre) {
            lemma_lex_lt_trans(a.pre, b.pre, c.pre);
        }
    }
}

/// Whether `a` comes lexicographically before `b`, by code point.
pub fn lex_lt_str(a: &str, b: &str) -> (r: bool)
    ensures
        r == lex_lt(a@, b@),
{
    let alen = a.unicode_len();
    let blen = b.unicode_len();
    let mut i: usize = 0;
    proof {
        assert(a@.skip(0) =~= a@);
        assert(b@.skip(0) =~= b@);
    }
    while i < alen && i < blen
        invariant
            i <= alen,
            i <= blen,
            alen == a@.len(),
            blen == b@.len(),
            lex_lt(a@, b@) == lex_lt(a@.skip(i as int), b@.skip(i as int)),
        decreases alen - i,
    {
        let ca = a.get_char(i);
        let cb = b.get_char(i);
        proof {
            assert(a@.skip(i as int)[0] == a@[i as int]);
            assert(b@.skip(i as int)[0] == b@[i as int]);
            assert(a@.skip(i as int).skip(1) =~= a@.skip(i as int + 1));
            assert(b@.skip(i as int).skip(1) =~= b@.skip(i as int + 1));
        }
        if ca != cb {
            return ca < cb;
        }
        i = i + 1;
    }
    proof {
        if i >= alen {
            assert(a@.skip(i as int) =~= Seq::<char>::empty());
        } else {
            assert(b@.skip(i as int) =~= Seq::<char>::empty());
        }
    }
    i < blen
}

/// Whether `a` precedes `b` in the precedence order.
pub fn lt_version(a: &Version, b: &Version) -> (r: bool)
    ensures
        r == version_lt(a@, b@),
{
    if a.major != b.major {
        a.major < b.major
    } else if a.minor != b.minor {
        a.minor < b.minor
    } else if a.patch != b.patch {
        a.patch < b.patch
    } else if a.pre.as_str().is_empty() {
        false
    } else if b.pre.as_str().is_empty() {
        true
    } else {
        lex_lt_str(a.pre.as_str(), b.pre.as_str())
    }
}

} // verus!
