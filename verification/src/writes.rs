//! The two physical write shapes of a publish against the external
//! transactional store, and what each outcome means. The shape is chosen from
//! a prior read of the package's owner record, but correctness never rests on
//! that read: the store itself enforces the condition, so a plan applied
//! against a state that moved on fails cleanly instead of overwriting.

use vstd::prelude::*;

use crate::error::RegistryError;
use crate::registry::{
    lemma_package_index_unique, record_matches, PackageEntry, Registry, VersionRecord,
};
use crate::version::Version;

verus! {

/// One publish write, ready to send to the store.
pub enum WritePlan {
    /// The package was not seen: create the owner record (conditioned by the
    /// store on it still being absent) and the first version record, as one
    /// all-or-nothing transaction.
    CreatePackage { crate_name: String, publisher: u64, record: VersionRecord },
    /// The package was seen: one put of the version record alone, conditioned
    /// by the store on no record existing for this exact version.
    AddVersion { crate_name: String, record: VersionRecord },
}

/// Chooses the write shape from what the read of the owner record observed.
pub fn plan_publish(
    package_exists: bool,
    crate_name: &str,
    version: &Version,
    metadata: Vec<u8>,
    checksum: u64,
    publisher: u64,
) -> (r: WritePlan)
    ensures
        package_exists ==> (r matches WritePlan::AddVersion { crate_name: n, record } && n@
            == crate_name@ && record_matches(record, version@, metadata@, checksum, false)),
        !package_exists ==> (r matches WritePlan::CreatePackage {
            crate_name: n,
            publisher: p,
            record,
        } && n@ == crate_name@ && p == publisher && record_matches(
            record,
            version@,
            metadata@,
            checksum,
            false,
        )),
{
    let record = VersionRecord { version: version.duplicate(), metadata, checksum, yanked: false };
    if package_exists {
        WritePlan::AddVersion { crate_name: crate_name.to_owned(), record }
    } else {
        WritePlan::CreatePackage { crate_name: crate_name.to_owned(), publisher, record }
    }
}

/// What a committed package creation did to the store: one new package at the
/// end, owned by the publisher alone, holding exactly the planned record.
pub open spec fn create_post(
    pre: Registry,
    post: Registry,
    name: Seq<char>,
    publisher: u64,
    record: VersionRecord,
) -> bool {
    &&& post.packages@.len() == pre.packages@.len() + 1
    &&& post.packages@.take(pre.packages@.len() as int) == pre.packages@
    &&& post.packages@.last().name@ == name
    &&& post.packages@.last().owners@ == seq![publisher]
    &&& post.packages@.last().versions@ == seq![record]
}

/// The whole behaviour of a transactional package creation: it commits exactly
/// when the owner record was absent, and on a conflict it changes nothing.
pub open spec fn create_transition(
    pre: Registry,
    post: Registry,
    name: Seq<char>,
    publisher: u64,
    record: VersionRecord,
    r: Result<(), RegistryError>,
) -> bool {
    &&& post.wf()
    &&& (r is Ok <==> !pre.has_package(name))
    &&& (r is Ok ==> create_post(pre, post, name, publisher, record))
    &&& (r is Err ==> post == pre && r matches Err(RegistryError::WriteConflict))
}

/// What a committed version put did to the store: exactly one entry gains
/// exactly the planned record at the end.
pub open spec fn add_version_post(
    pre: Registry,
    post: Registry,
    name: Seq<char>,
    record: VersionRecord,
) -> bool {
    let i = pre.package_index(name);
    &&& post.packages@.len() == pre.packages@.len()
    &&& forall|k: int|
        0 <= k < pre.packages@.len() && k != i ==> post.packages@[k] == pre.packages@[k]
    &&& post.packages@[i].name == pre.packages@[i].name
    &&& post.packages@[i].owners == pre.packages@[i].owners
    &&& post.packages@[i].versions@ == pre.packages@[i].versions@.push(record)
}

/// The whole behaviour of a conditional version put: it commits exactly when
/// the store saw no record for this version, and reports the duplicate and
/// changes nothing otherwise.
pub open spec fn add_version_transition(
    pre: Registry,
    post: Registry,
    name: Seq<char>,
    record: VersionRecord,
    r: Result<(), RegistryError>,
) -> bool {
    &&& post.wf()
    &&& (r is Ok <==> !pre.has_version(name, record.version@))
    &&& (r is Ok ==> add_version_post(pre, post, name, record))
    &&& (r is Err ==> post == pre && (r matches Err(RegistryError::DuplicateCrateVersion {
        crate_name: n,
        version: v,
    }) && n@ == name && v@ == record.version@))
}

/// Applies one planned write with the conditional semantics the store
/// guarantees, whatever state the store has reached meanwhile.
pub fn apply_plan(reg: &mut Registry, plan: WritePlan) -> (r: Result<(), RegistryError>)
    requires
        old(reg).wf(),
        plan matches WritePlan::AddVersion { crate_name, .. } ==> old(reg).has_package(
            crate_name@,
        ),
    ensures
        plan matches WritePlan::CreatePackage { crate_name, publisher, record }
            ==> create_transition(*old(reg), *final (reg), crate_name@, publisher, record, r),
        plan matches WritePlan::AddVersion { crate_name, record } ==> add_version_transition(
            *old(reg),
            *final (reg),
            crate_name@,
            record,
            r,
        ),
{
    match plan {
        WritePlan::CreatePackage { crate_name, publisher, record } => {
            match reg.find_package(crate_name.as_str()) {
                Some(_) => Err(RegistryError::WriteConflict),
                None => {
                    let mut owners: Vec<u64> = Vec::new();
                    owners.push(publisher);
                    let mut versions: Vec<VersionRecord> = Vec::new();
                    versions.push(record);
                    let entry = PackageEntry { name: crate_name, owners, versions };
                    reg.packages.push(entry);
                    proof {
                        assert(owners@ =~= seq![publisher]);
                        assert(reg.packages@.take(old(reg).packages@.len() as int) =~= old(
                            reg,
                        ).packages@);
                        assert(reg.wf());
                    }
                    Ok(())
                },
            }
        },
        WritePlan::AddVersion { crate_name, record } => {
            let i = match reg.find_package(crate_name.as_str()) {
                Some(i) => i,
                None => {
                    // A version put is only planned against a package that was
                    // read as existing, and packages are never deleted.
                    proof {
                        assert(false);
                    }
                    return Err(RegistryError::WriteConflict);
                },
            };
            let jop = Registry::find_version(&reg.packages[i], &record.version);
            if let Some(j) = jop {
                proof {
                    assert(old(reg).versions_of(crate_name@)[j as int].version@
                        == record.version@);
                    assert(old(reg).has_version(crate_name@, record.version@));
                }
                return Err(
                    RegistryError::DuplicateCrateVersion {
                        crate_name,
                        version: record.version,
                    },
                );
            }
            let mut entry = reg.packages.remove(i);
            entry.versions.push(record);
            let ghost ne = entry;
            reg.packages.insert(i, entry);
            proof {
                assert(reg.packages@ =~= old(reg).packages@.update(i as int, ne));
                assert(ne.versions@ == old(reg).packages@[i as int].versions@.push(record));
                assert(reg.wf());
            }
            Ok(())
        },
    }
}

/// The publish write as it runs against the store: one read of the owner
/// record chooses the write shape, and uniqueness is enforced by the store's
/// own condition, never by the read. Composed this way it meets exactly the
/// contract of the one-step publish write.
pub fn store_through_plan(
    reg: &mut Registry,
    crate_name: &str,
    version: &Version,
    metadata: Vec<u8>,
    checksum: u64,
    publisher: u64,
) -> (r: Result<(), RegistryError>)
    requires
        old(reg).wf(),
    ensures
        final (reg).wf(),
        r is Ok <==> !old(reg).has_version(crate_name@, version@),
        r is Ok ==> crate::registry::store_ok_post(
            *old(reg),
            *final (reg),
            crate_name@,
            version@,
            metadata@,
            checksum,
            publisher,
        ),
        r is Err ==> *final (reg) == *old(reg),
        r matches Err(e) ==> e matches RegistryError::DuplicateCrateVersion {
            crate_name: n,
            version: v,
        } && n@ == crate_name@ && v@ == version@,
        final (reg).has_version(crate_name@, version@),
{
    let package_exists = reg.find_package(crate_name).is_some();
    let plan = plan_publish(package_exists, crate_name, version, metadata, checksum, publisher);
    let r = apply_plan(reg, plan);
    proof {
        let pre = *old(reg);
        let post = *reg;
        let name = crate_name@;
        if package_exists {
            let i = pre.package_index(name);
            if r is Ok {
                assert(post.packages@[i].versions@.take(pre.packages@[i].versions@.len() as int)
                    =~= pre.packages@[i].versions@);
                lemma_package_index_unique(post, name, i);
                crate::registry::lemma_version_index_unique(
                    post,
                    name,
                    post.versions_of(name).len() - 1,
                );
            }
        } else {
            assert(r is Ok);
            lemma_package_index_unique(post, name, pre.packages@.len() as int);
            crate::registry::lemma_version_index_unique(post, name, 0);
        }
    }
    r
}

/// Two concurrent first-time publishes of one new package name, both planned
/// against a state where the package did not exist: the store commits exactly
/// one transaction. The first creates the package; the second fails wholesale
/// with a write conflict and changes nothing — never two creations, and the
/// owner set is the winner's alone, never a divergent merge.
pub proof fn lemma_concurrent_create_race(
    pre: Registry,
    mid: Registry,
    fin: Registry,
    name: Seq<char>,
    publisher1: u64,
    publisher2: u64,
    rec1: VersionRecord,
    rec2: VersionRecord,
    r1: Result<(), RegistryError>,
    r2: Result<(), RegistryError>,
)
    requires
        pre.wf(),
        !pre.has_package(name),
        create_transition(pre, mid, name, publisher1, rec1, r1),
        create_transition(mid, fin, name, publisher2, rec2, r2),
    ensures
        r1 is Ok,
        r2 matches Err(RegistryError::WriteConflict),
        fin == mid,
        fin.has_package(name),
        fin.owners_of(name) == seq![publisher1],
        fin.versions_of(name) == seq![rec1],
{
    let n = pre.packages@.len() as int;
    assert(mid.packages@[n].name@ == name);
    lemma_package_index_unique(mid, name, n);
}

} // verus!
