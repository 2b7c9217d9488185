//! The line-delimited index read format: one JSON object per published
//! version — the stored publish metadata plus the `yanked` flag and the
//! content checksum — newline-joined, as package-manager clients read it.

use vstd::prelude::*;

use crate::error::RegistryError;
use crate::registry::{records_match, Registry, VersionRecord};
use vstd::string::StringExecFns;

verus! {

/// What the outside JSON printer makes of one index line: the metadata
/// document's members with `yanked` and `cksum` set, printed on one line —
/// `Some` exactly on documents that parse as JSON objects, and a function of
/// the three inputs alone.
pub uninterp spec fn index_line_of(metadata: Seq<u8>, yanked: bool, checksum: u64) -> Option<
    Seq<char>,
>;

/// Relies on serde_json: `from_slice` parses the stored metadata document,
/// `as_object_mut` exposes its members, `insert` sets `yanked` and `cksum`,
/// and `to_string` prints the object on one line.
#[verifier::external_body]
fn render_index_line(metadata: &Vec<u8>, yanked: bool, checksum: u64) -> (r: Option<String>)
    ensures
        r matches Some(s) ==> index_line_of(metadata@, yanked, checksum) == Some(s@),
        r is None ==> index_line_of(metadata@, yanked, checksum) is None,
{
    let mut value: serde_json::Value = match serde_json::from_slice(metadata.as_slice()) {
        Ok(v) => v,
        Err(_) => return None,
    };
    let object = value.as_object_mut()?;
    object.insert("yanked".to_string(), serde_json::Value::Bool(yanked));
    object.insert("cksum".to_string(), serde_json::Value::String(format!("{:016x}", checksum)));
    Some(value.to_string())
}

/// The index document of a record sequence: the records' lines in publish
/// order, newline-joined; nothing if some stored metadata is no JSON object.
pub open spec fn spec_render_index(rs: Seq<VersionRecord>) -> Option<Seq<char>>
    decreases rs.len(),
{
    if rs.len() == 0 {
        Some(Seq::empty())
    } else {
        match (
            spec_render_index(rs.drop_last()),
            index_line_of(rs.last().metadata@, rs.last().yanked, rs.last().checksum),
        ) {
            (Some(prefix), Some(line)) => Some(
                if rs.len() == 1 {
                    line
                } else {
                    prefix + seq!['\n'] + line
                },
            ),
            _ => None,
        }
    }
}

/// One record whose metadata the printer refuses spoils the whole document.
proof fn lemma_render_index_none(rs: Seq<VersionRecord>, k: int)
    requires
        0 <= k < rs.len(),
        index_line_of(rs[k].metadata@, rs[k].yanked, rs[k].checksum) is None,
    ensures
        spec_render_index(rs) is None,
    decreases rs.len(),
{
    if k < rs.len() - 1 {
        assert(rs.drop_last()[k] == rs[k]);
        lemma_render_index_none(rs.drop_last(), k);
    }
}

/// The index document reads nothing but each record's data, so record
/// sequences holding the same data render the same document.
pub proof fn lemma_render_index_respects_data(a: Seq<VersionRecord>, b: Seq<VersionRecord>)
    requires
        records_match(a, b),
    ensures
        spec_render_index(a) == spec_render_index(b),
    decreases a.len(),
{
    if a.len() > 0 {
        assert(a.last()@ == b.last()@);
        assert forall|k: int| 0 <= k < a.drop_last().len() implies (
        #[trigger] a.drop_last()[k])@ == b.drop_last()[k]@ by {
            assert(a.drop_last()[k] == a[k]);
            assert(b.drop_last()[k] == b[k]);
            assert(a[k]@ == b[k]@);
        }
        lemma_render_index_respects_data(a.drop_last(), b.drop_last());
    }
}

/// Renders the newline-joined index of a record sequence. It fails only on a
/// stored metadata document that is no JSON object — which no publish commits,
/// so the failure is classified as internal.
pub fn render_index(records: &Vec<VersionRecord>) -> (r: Result<String, RegistryError>)
    ensures
        r is Ok <==> spec_render_index(records@) is Some,
        r matches Ok(s) ==> Some(s@) == spec_render_index(records@),
        r matches Err(e) ==> e is InternalError,
{
    let n = records.len();
    let mut out = String::new();
    let mut k: usize = 0;
    proof {
        assert(records@.take(0) =~= Seq::<VersionRecord>::empty());
    }
    while k < n
        invariant
            n == records@.len(),
            k <= n,
            spec_render_index(records@.take(k as int)) == Some(out@),
        decreases n - k,
    {
        let line = match render_index_line(
            &records[k].metadata,
            records[k].yanked,
            records[k].checksum,
        ) {
            Some(line) => line,
            None => {
                proof {
                    lemma_render_index_none(records@, k as int);
                }
                return Err(RegistryError::InternalError);
            },
        };
        if k > 0 {
            proof {
                reveal_strlit("\n");
            }
            out.append("\n");
        }
        out.append(line.as_str());
        k = k + 1;
        proof {
            assert(records@.take(k as int).drop_last() =~= records@.take(k - 1));
            assert(records@.take(k as int).last() == records@[k - 1]);
            if k > 1 {
                assert("\n"@ =~= seq!['\n']);
            }
            assert(spec_render_index(records@.take(k as int)) matches Some(s) && s =~= out@);
        }
    }
    proof {
        assert(records@.take(n as int) =~= records@);
    }
    Ok(out)
}

/// The index read as a client sees it: every version of the package as one
/// JSON line. Fails with `NonExistentPackageInfo` exactly when the package was
/// never published.
pub fn get_index(registry: &Registry, crate_name: &str) -> (r: Result<String, RegistryError>)
    requires
        registry.wf(),
    ensures
        !registry.has_package(crate_name@) ==> (r matches Err(e) && e matches
            RegistryError::NonExistentPackageInfo { crate_name: n } && n@ == crate_name@),
        registry.has_package(crate_name@) ==> {
            &&& r is Ok <==> spec_render_index(registry.versions_of(crate_name@)) is Some
            &&& (r matches Ok(s) ==> Some(s@) == spec_render_index(
                registry.versions_of(crate_name@),
            ))
            &&& (r matches Err(e) ==> e is InternalError)
        },
{
    let records = match registry.get_package_info(crate_name) {
        Ok(records) => records,
        Err(e) => {
            return Err(e);
        },
    };
    proof {
        lemma_render_index_respects_data(records@, registry.versions_of(crate_name@));
    }
    render_index(&records)
}

} // verus!
