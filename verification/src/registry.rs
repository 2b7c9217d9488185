//! The authoritative metadata store: package existence, per-version records,
//! yank state and the owner set, with the registry's central invariant —
//! publish is a one-time, append-only event per (name, version), a package is
//! created atomically with its first version, and its owner set is never
//! empty afterwards.

use vstd::prelude::*;

use crate::error::RegistryError;
use crate::order::{
    lemma_version_le_trans, lemma_version_order_total, lt_version, version_le, version_prec_eq,
};
use crate::version::{eq_version, Version, VersionView};
use vstd::string::StringExecFns;

verus! {

/// One published version: the immutable version and metadata (the uploaded
/// JSON document, opaque to the core), the archive checksum, and the mutable
/// yanked flag.
pub struct VersionRecord {
    pub version: Version,
    pub metadata: Vec<u8>,
    pub checksum: u64,
    pub yanked: bool,
}

/// The mathematical value of a `VersionRecord`.
pub struct RecordView {
    pub version: VersionView,
    pub metadata: Seq<u8>,
    pub checksum: u64,
    pub yanked: bool,
}

impl View for VersionRecord {
    type V = RecordView;

    open spec fn view(&self) -> RecordView {
        RecordView {
            version: self.version@,
            metadata: self.metadata@,
            checksum: self.checksum,
            yanked: self.yanked,
        }
    }
}

impl VersionRecord {
    /// A copy with the same value.
    pub fn duplicate(&self) -> (r: VersionRecord)
        ensures
            r@ == self@,
    {
        let r = VersionRecord {
            version: self.version.duplicate(),
            metadata: self.metadata.clone(),
            checksum: self.checksum,
            yanked: self.yanked,
        };
        proof {
            assert(r.metadata@ =~= self.metadata@);
        }
        r
    }
}

/// Everything the registry holds about one package: its immutable name, its
/// owner set, and its version records in publish order.
pub struct PackageEntry {
    pub name: String,
    pub owners: Vec<u64>,
    pub versions: Vec<VersionRecord>,
}

/// Whether a stored record holds exactly the given data.
pub open spec fn record_matches(
    r: VersionRecord,
    v: VersionView,
    metadata: Seq<u8>,
    checksum: u64,
    yanked: bool,
) -> bool {
    r.version@ == v && r.metadata@ == metadata && r.checksum == checksum && r.yanked == yanked
}

/// The in-memory registry: the model every operation is specified against,
/// and the trivial backend for tests. Uniqueness here is structural; against
/// an external store the same transitions are driven through conditional
/// writes (see the write plans).
pub struct Registry {
    pub packages: Vec<PackageEntry>,
}

impl PackageEntry {
    /// A package entry is well-formed when it has at least one owner, no
    /// repeated owner, at least one version, and no repeated version.
    pub open spec fn wf(self) -> bool {
        &&& self.owners@.len() > 0
        &&& forall|i: int, j: int|
            0 <= i < j < self.owners@.len() ==> self.owners@[i] != self.owners@[j]
        &&& self.versions@.len() > 0
        &&& forall|i: int, j: int|
            0 <= i < j < self.versions@.len() ==> (#[trigger] self.versions@[i]).version@ != (
            #[trigger] self.versions@[j]).version@
    }
}

impl Registry {
    /// An empty registry: no package was ever published.
    pub fn new() -> (r: Registry)
        ensures
            r.wf(),
            r.packages@.len() == 0,
    {
        Registry { packages: Vec::new() }
    }

    /// Every package name appears once, and every entry is well-formed.
    pub open spec fn wf(self) -> bool {
        &&& forall|i: int, j: int|
            0 <= i < j < self.packages@.len() ==> (#[trigger] self.packages@[i]).name@ != (
            #[trigger] self.packages@[j]).name@
        &&& forall|i: int|
            0 <= i < self.packages@.len() ==> (#[trigger] self.packages@[i]).wf()
    }

    /// Whether a package of this name was ever published.
    pub open spec fn has_package(self, name: Seq<char>) -> bool {
        exists|i: int|
            0 <= i < self.packages@.len() && (#[trigger] self.packages@[i]).name@ == name
    }

    /// The position of the package of this name (meaningful under
    /// `has_package`).
    pub open spec fn package_index(self, name: Seq<char>) -> int {
        choose|i: int|
            0 <= i < self.packages@.len() && (#[trigger] self.packages@[i]).name@ == name
    }

    /// The entry of the package of this name.
    pub open spec fn package(self, name: Seq<char>) -> PackageEntry {
        self.packages@[self.package_index(name)]
    }

    /// The package's version records, in publish order.
    pub open spec fn versions_of(self, name: Seq<char>) -> Seq<VersionRecord> {
        self.package(name).versions@
    }

    /// The package's owner ids, in the order they were added.
    pub open spec fn owners_of(self, name: Seq<char>) -> Seq<u64> {
        self.package(name).owners@
    }

    /// Whether this exact (name, version) was ever published.
    pub open spec fn has_version(self, name: Seq<char>, v: VersionView) -> bool {
        self.has_package(name) && exists|j: int|
            0 <= j < self.versions_of(name).len() && (#[trigger] self.versions_of(
                name,
            )[j]).version@ == v
    }

    /// The position of the version's record within its package.
    pub open spec fn version_index(self, name: Seq<char>, v: VersionView) -> int {
        choose|j: int|
            0 <= j < self.versions_of(name).len() && (#[trigger] self.versions_of(
                name,
            )[j]).version@ == v
    }

    /// The stored record of this exact (name, version).
    pub open spec fn record_of(self, name: Seq<char>, v: VersionView) -> VersionRecord {
        self.versions_of(name)[self.version_index(name, v)]
    }
}

/// In a well-formed registry the package of a given name sits at one position
/// only, so any found position is the `package_index`.
pub proof fn lemma_package_index_unique(r: Registry, name: Seq<char>, i: int)
    requires
        r.wf(),
        0 <= i < r.packages@.len(),
        r.packages@[i].name@ == name,
    ensures
        r.has_package(name),
        r.package_index(name) == i,
{
    assert(r.has_package(name));
    let j = r.package_index(name);
    if j < i {
        assert(r.packages@[j].name@ != r.packages@[i].name@);
    } else if i < j {
        assert(r.packages@[i].name@ != r.packages@[j].name@);
    }
}

/// Within a well-formed entry a version sits at one position only, so any
/// found position is the `version_index`.
pub proof fn lemma_version_index_unique(r: Registry, name: Seq<char>, j: int)
    requires
        r.wf(),
        r.has_package(name),
        0 <= j < r.versions_of(name).len(),
    ensures
        r.has_version(name, r.versions_of(name)[j].version@),
        r.version_index(name, r.versions_of(name)[j].version@) == j,
{
    let v = r.versions_of(name)[j].version@;
    assert(r.has_version(name, v));
    let k = r.version_index(name, v);
    let i = r.package_index(name);
    assert(r.packages@[i].wf());
    if k < j {
        assert(r.versions_of(name)[k].version@ != r.versions_of(name)[j].version@);
    } else if j < k {
        assert(r.versions_of(name)[j].version@ != r.versions_of(name)[k].version@);
    }
}

impl Registry {
    /// Finds the position of a package by name.
    pub(crate) fn find_package(&self, crate_name: &str) -> (r: Option<usize>)
        requires
            self.wf(),
        ensures
            match r {
                Some(i) => self.has_package(crate_name@) && i == self.package_index(crate_name@)
                    && i < self.packages@.len(),
                None => !self.has_package(crate_name@),
            },
    {
        let name_owned: String = crate_name.to_owned();
        let n = self.packages.len();
        let mut i: usize = 0;
        while i < n
            invariant
                self.wf(),
                n == self.packages@.len(),
                i <= n,
                name_owned@ == crate_name@,
                forall|k: int| 0 <= k < i ==> (#[trigger] self.packages@[k]).name@ != crate_name@,
            decreases n - i,
        {
            if self.packages[i].name == name_owned {
                proof {
                    lemma_package_index_unique(*self, crate_name@, i as int);
                }
                return Some(i);
            }
            i = i + 1;
        }
        None
    }

    /// Finds the position of a version within an entry.
    pub(crate) fn find_version(entry: &PackageEntry, version: &Version) -> (r: Option<usize>)
        ensures
            match r {
                Some(j) => j < entry.versions@.len() && entry.versions@[j as int].version@
                    == version@,
                None => forall|j: int|
                    0 <= j < entry.versions@.len() ==> (#[trigger] entry.versions@[j]).version@
                        != version@,
            },
    {
        let n = entry.versions.len();
        let mut j: usize = 0;
        while j < n
            invariant
                n == entry.versions@.len(),
                j <= n,
                forall|k: int|
                    0 <= k < j ==> (#[trigger] entry.versions@[k]).version@ != version@,
            decreases n - j,
        {
            if eq_version(&entry.versions[j].version, version) {
                return Some(j);
            }
            j = j + 1;
        }
        None
    }
}

/// How a successful publish write changes the registry: if the package
/// existed, exactly its entry gains exactly one record at the end; otherwise
/// one new package appears at the end, owned by the publisher alone, holding
/// exactly the one record. The new record holds the given data, not yanked.
pub open spec fn store_ok_post(
    pre: Registry,
    post: Registry,
    name: Seq<char>,
    v: VersionView,
    metadata: Seq<u8>,
    checksum: u64,
    publisher: u64,
) -> bool {
    if pre.has_package(name) {
        let i = pre.package_index(name);
        &&& post.packages@.len() == pre.packages@.len()
        &&& forall|k: int|
            0 <= k < pre.packages@.len() && k != i ==> post.packages@[k] == pre.packages@[k]
        &&& post.packages@[i].name == pre.packages@[i].name
        &&& post.packages@[i].owners == pre.packages@[i].owners
        &&& post.packages@[i].versions@.len() == pre.packages@[i].versions@.len() + 1
        &&& post.packages@[i].versions@.take(pre.packages@[i].versions@.len() as int)
            == pre.packages@[i].versions@
        &&& record_matches(post.packages@[i].versions@.last(), v, metadata, checksum, false)
    } else {
        &&& post.packages@.len() == pre.packages@.len() + 1
        &&& post.packages@.take(pre.packages@.len() as int) == pre.packages@
        &&& post.packages@.last().name@ == name
        &&& post.packages@.last().owners@ == seq![publisher]
        &&& post.packages@.last().versions@.len() == 1
        &&& record_matches(post.packages@.last().versions@[0], v, metadata, checksum, false)
    }
}

impl Registry {
    /// The publish write. Atomic and uniqueness-enforcing: it succeeds exactly
    /// when this (name, version) was never published, never overwrites, and
    /// on failure reports the duplicate and changes nothing. A package that
    /// does not exist yet is created with the publisher as its only owner, in
    /// the same step as its first version.
    pub fn store_package_info(
        &mut self,
        crate_name: &str,
        version: &Version,
        metadata: Vec<u8>,
        checksum: u64,
        publisher: u64,
    ) -> (r: Result<(), RegistryError>)
        requires
            old(self).wf(),
        ensures
            final (self).wf(),
            r is Ok <==> !old(self).has_version(crate_name@, version@),
            r is Ok ==> store_ok_post(
                *old(self),
                *final (self),
                crate_name@,
                version@,
                metadata@,
                checksum,
                publisher,
            ),
            r is Err ==> *final (self) == *old(self),
            r matches Err(e) ==> e matches RegistryError::DuplicateCrateVersion {
                crate_name: n,
                version: v,
            } && n@ == crate_name@ && v@ == version@,
            final (self).has_version(crate_name@, version@),
    {
        let found = self.find_package(crate_name);
        match found {
            Some(i) => {
                let dup = Self::find_version(&self.packages[i], version);
                if let Some(j) = dup {
                    proof {
                        assert(old(self).versions_of(crate_name@)[j as int].version@ == version@);
                        assert(old(self).has_version(crate_name@, version@));
                    }
                    return Err(
                        RegistryError::DuplicateCrateVersion {
                            crate_name: crate_name.to_owned(),
                            version: version.duplicate(),
                        },
                    );
                }
                let mut entry = self.packages.remove(i);
                entry.versions.push(
                    VersionRecord {
                        version: version.duplicate(),
                        metadata,
                        checksum,
                        yanked: false,
                    },
                );
                let ghost new_entry = entry;
                self.packages.insert(i, entry);
                proof {
                    assert(self.packages@ =~= old(self).packages@.update(i as int, new_entry));
                    assert(new_entry.versions@.take(
                        old(self).packages@[i as int].versions@.len() as int,
                    ) =~= old(self).packages@[i as int].versions@);
                    assert(self.wf());
                    lemma_package_index_unique(*self, crate_name@, i as int);
                    lemma_version_index_unique(
                        *self,
                        crate_name@,
                        new_entry.versions@.len() - 1,
                    );
                }
                Ok(())
            },
            None => {
                let mut owners: Vec<u64> = Vec::new();
                owners.push(publisher);
                let mut versions: Vec<VersionRecord> = Vec::new();
                versions.push(
                    VersionRecord {
                        version: version.duplicate(),
                        metadata,
                        checksum,
                        yanked: false,
                    },
                );
                let entry = PackageEntry { name: crate_name.to_owned(), owners, versions };
                self.packages.push(entry);
                proof {
                    assert(owners@ =~= seq![publisher]);
                    assert(self.packages@.take(old(self).packages@.len() as int) =~= old(
                        self,
                    ).packages@);
                    assert(self.wf());
                    lemma_package_index_unique(
                        *self,
                        crate_name@,
                        old(self).packages@.len() as int,
                    );
                    lemma_version_index_unique(*self, crate_name@, 0);
                }
                Ok(())
            },
        }
    }
}

/// Whether two record sequences hold the same data.
pub open spec fn records_match(a: Seq<VersionRecord>, b: Seq<VersionRecord>) -> bool {
    a.len() == b.len() && forall|k: int| 0 <= k < a.len() ==> (#[trigger] a[k])@ == b[k]@
}

/// How setting the yanked flag changes the registry: exactly one record's
/// flag, and nothing else.
pub open spec fn yank_post(
    pre: Registry,
    post: Registry,
    name: Seq<char>,
    v: VersionView,
    yanked: bool,
) -> bool {
    let i = pre.package_index(name);
    let j = pre.version_index(name, v);
    &&& post.packages@.len() == pre.packages@.len()
    &&& forall|k: int|
        0 <= k < pre.packages@.len() && k != i ==> post.packages@[k] == pre.packages@[k]
    &&& post.packages@[i].name == pre.packages@[i].name
    &&& post.packages@[i].owners == pre.packages@[i].owners
    &&& post.packages@[i].versions@.len() == pre.packages@[i].versions@.len()
    &&& forall|l: int|
        0 <= l < pre.packages@[i].versions@.len() && l != j ==> post.packages@[i].versions@[l]
            == pre.packages@[i].versions@[l]
    &&& post.packages@[i].versions@[j].version == pre.packages@[i].versions@[j].version
    &&& post.packages@[i].versions@[j].metadata == pre.packages@[i].versions@[j].metadata
    &&& post.packages@[i].versions@[j].checksum == pre.packages@[i].versions@[j].checksum
    &&& post.packages@[i].versions@[j].yanked == yanked
}

impl Registry {
    /// The index read: every version record of the package, in publish order.
    /// It fails exactly when the package was never published — the registry
    /// distinguishes "never published" from "exists"; an existing package
    /// always has at least one version.
    pub fn get_package_info(&self, crate_name: &str) -> (r: Result<
        Vec<VersionRecord>,
        RegistryError,
    >)
        requires
            self.wf(),
        ensures
            r is Ok <==> self.has_package(crate_name@),
            r matches Ok(list) ==> records_match(list@, self.versions_of(crate_name@))
                && list@.len() > 0,
            r matches Err(e) ==> e matches RegistryError::NonExistentPackageInfo {
                crate_name: n,
            } && n@ == crate_name@,
    {
        match self.find_package(crate_name) {
            Some(i) => {
                let entry = &self.packages[i];
                let n = entry.versions.len();
                let mut out: Vec<VersionRecord> = Vec::new();
                let mut k: usize = 0;
                while k < n
                    invariant
                        n == entry.versions@.len(),
                        k <= n,
                        out@.len() == k,
                        forall|l: int| 0 <= l < k ==> (#[trigger] out@[l])@ == entry.versions@[l]@,
                    decreases n - k,
                {
                    out.push(entry.versions[k].duplicate());
                    k = k + 1;
                }
                Ok(out)
            },
            None => Err(RegistryError::NonExistentPackageInfo { crate_name: crate_name.to_owned() }),
        }
    }

    /// Yanks or unyanks one existing version; on a version that was never
    /// published it fails and changes nothing, never an implicit create.
    /// Idempotent: repeating the same call succeeds again and leaves the
    /// registry exactly as it was.
    pub fn set_yanked(&mut self, crate_name: &str, version: &Version, yanked: bool) -> (r: Result<
        (),
        RegistryError,
    >)
        requires
            old(self).wf(),
        ensures
            final (self).wf(),
            r is Ok <==> old(self).has_version(crate_name@, version@),
            r is Ok ==> yank_post(*old(self), *final (self), crate_name@, version@, yanked),
            r is Err ==> *final (self) == *old(self),
            r matches Err(e) ==> e matches RegistryError::NonExistentCrateVersion {
                crate_name: n,
                version: v,
            } && n@ == crate_name@ && v@ == version@,
    {
        let found = self.find_package(crate_name);
        let i = match found {
            Some(i) => i,
            None => {
                return Err(
                    RegistryError::NonExistentCrateVersion {
                        crate_name: crate_name.to_owned(),
                        version: version.duplicate(),
                    },
                );
            },
        };
        let jop = Self::find_version(&self.packages[i], version);
        let j = match jop {
            Some(j) => j,
            None => {
                return Err(
                    RegistryError::NonExistentCrateVersion {
                        crate_name: crate_name.to_owned(),
                        version: version.duplicate(),
                    },
                );
            },
        };
        proof {
            assert(old(self).versions_of(crate_name@)[j as int].version@ == version@);
            assert(old(self).has_version(crate_name@, version@));
            lemma_version_index_unique(*old(self), crate_name@, j as int);
        }
        let mut entry = self.packages.remove(i);
        let rec = entry.versions.remove(j);
        let new_rec = VersionRecord {
            version: rec.version,
            metadata: rec.metadata,
            checksum: rec.checksum,
            yanked,
        };
        let ghost nr = new_rec;
        entry.versions.insert(j, new_rec);
        let ghost ne = entry;
        self.packages.insert(i, entry);
        proof {
            assert(ne.versions@ =~= old(self).packages@[i as int].versions@.update(j as int, nr));
            assert(self.packages@ =~= old(self).packages@.update(i as int, ne));
            assert forall|l: int, m: int|
                0 <= l < m < ne.versions@.len() implies (#[trigger] ne.versions@[l]).version@ != (
            #[trigger] ne.versions@[m]).version@ by {
                assert(old(self).packages@[i as int].wf());
                assert(ne.versions@[l].version@ == old(
                    self,
                ).packages@[i as int].versions@[l].version@);
                assert(ne.versions@[m].version@ == old(
                    self,
                ).packages@[i as int].versions@[m].version@);
            }
            assert(self.wf());
        }
        Ok(())
    }

    /// The package's owner ids. Fails exactly when the package was never
    /// created; an existing package never has an empty owner set.
    pub fn list_owners(&self, crate_name: &str) -> (r: Result<Vec<u64>, RegistryError>)
        requires
            self.wf(),
        ensures
            r is Ok <==> self.has_package(crate_name@),
            r matches Ok(o) ==> o@ == self.owners_of(crate_name@) && o@.len() > 0,
            r matches Err(e) ==> e matches RegistryError::NonExistentPackageInfo {
                crate_name: n,
            } && n@ == crate_name@,
    {
        match self.find_package(crate_name) {
            Some(i) => {
                let o = self.packages[i].owners.clone();
                proof {
                    assert(o@ =~= self.owners_of(crate_name@));
                }
                Ok(o)
            },
            None => Err(RegistryError::NonExistentPackageInfo { crate_name: crate_name.to_owned() }),
        }
    }
}

/// A sequence contains an element exactly when its head is it or its tail
/// contains it.
proof fn lemma_contains_step<A>(s: Seq<A>, x: A)
    requires
        s.len() > 0,
    ensures
        s.contains(x) <==> (s[0] == x || s.skip(1).contains(x)),
{
    if s.contains(x) {
        let w = choose|w: int| 0 <= w < s.len() && s[w] == x;
        if w > 0 {
            assert(s.skip(1)[w - 1] == x);
        }
    }
    if s.skip(1).contains(x) {
        let w = choose|w: int| 0 <= w < s.skip(1).len() && s.skip(1)[w] == x;
        assert(s[w + 1] == x);
    }
}

/// A pushed sequence contains an element exactly when the old one did or the
/// new element is it.
proof fn lemma_contains_push<A>(s: Seq<A>, e: A, x: A)
    ensures
        s.push(e).contains(x) <==> (s.contains(x) || e == x),
{
    if s.push(e).contains(x) {
        let w = choose|w: int| 0 <= w < s.push(e).len() && s.push(e)[w] == x;
        if w < s.len() {
            assert(s[w] == x);
        }
    }
    if s.contains(x) {
        let w = choose|w: int| 0 <= w < s.len() && s[w] == x;
        assert(s.push(e)[w] == x);
    }
    if e == x {
        assert(s.push(e)[s.len() as int] == x);
    }
}

/// The owner set after adding `ids`: each id in turn is appended unless
/// already present — a set union that keeps the existing order and adds
/// nothing twice.
pub open spec fn union_owners(owners: Seq<u64>, ids: Seq<u64>) -> Seq<u64>
    decreases ids.len(),
{
    if ids.len() == 0 {
        owners
    } else if owners.contains(ids[0]) {
        union_owners(owners, ids.skip(1))
    } else {
        union_owners(owners.push(ids[0]), ids.skip(1))
    }
}

/// The union keeps the existing owners as a prefix, holds exactly the old and
/// the new ids, and stays free of repetitions.
pub proof fn lemma_union_owners_properties(owners: Seq<u64>, ids: Seq<u64>)
    ensures
        union_owners(owners, ids).len() >= owners.len(),
        union_owners(owners, ids).take(owners.len() as int) == owners,
        forall|x: u64|
            union_owners(owners, ids).contains(x) <==> (owners.contains(x) || ids.contains(x)),
        (forall|i: int, j: int| 0 <= i < j < owners.len() ==> owners[i] != owners[j]) ==> (forall|
            i: int,
            j: int,
        |
            0 <= i < j < union_owners(owners, ids).len() ==> union_owners(owners, ids)[i]
                != union_owners(owners, ids)[j]),
    decreases ids.len(),
{
    if ids.len() == 0 {
        assert(union_owners(owners, ids).take(owners.len() as int) =~= owners);
        assert forall|x: u64| !ids.contains(x) by {}
    } else {
        let h = ids[0];
        assert forall|x: u64| ids.contains(x) <==> (h == x || ids.skip(1).contains(x)) by {
            lemma_contains_step(ids, x);
        }
        if owners.contains(h) {
            lemma_union_owners_properties(owners, ids.skip(1));
        } else {
            let o1 = owners.push(h);
            lemma_union_owners_properties(o1, ids.skip(1));
            assert forall|x: u64| o1.contains(x) <==> (owners.contains(x) || h == x) by {
                lemma_contains_push(owners, h, x);
            }
            assert(union_owners(o1, ids.skip(1)).take(owners.len() as int) =~= union_owners(
                o1,
                ids.skip(1),
            ).take(o1.len() as int).take(owners.len() as int));
            if forall|i: int, j: int| 0 <= i < j < owners.len() ==> owners[i] != owners[j] {
                assert forall|i: int, j: int| 0 <= i < j < o1.len() implies o1[i] != o1[j] by {
                    if j == owners.len() {
                        assert(o1[i] == owners[i]);
                        assert(!owners.contains(h));
                        assert(owners[i] != h);
                    }
                }
            }
        }
    }
}

/// Adding only already-present owners is a no-op.
pub proof fn lemma_union_owners_idempotent(owners: Seq<u64>, ids: Seq<u64>)
    requires
        forall|k: int| 0 <= k < ids.len() ==> owners.contains(#[trigger] ids[k]),
    ensures
        union_owners(owners, ids) == owners,
    decreases ids.len(),
{
    if ids.len() > 0 {
        assert(owners.contains(ids[0]));
        assert forall|k: int| 0 <= k < ids.skip(1).len() implies owners.contains(
            #[trigger] ids.skip(1)[k],
        ) by {
            assert(ids.skip(1)[k] == ids[k + 1]);
        }
        lemma_union_owners_idempotent(owners, ids.skip(1));
    }
}

/// How adding owners changes the registry: exactly one entry's owner set
/// becomes the union, and nothing else moves.
pub open spec fn add_owners_post(
    pre: Registry,
    post: Registry,
    name: Seq<char>,
    ids: Seq<u64>,
) -> bool {
    let i = pre.package_index(name);
    &&& post.packages@.len() == pre.packages@.len()
    &&& forall|k: int|
        0 <= k < pre.packages@.len() && k != i ==> post.packages@[k] == pre.packages@[k]
    &&& post.packages@[i].name == pre.packages@[i].name
    &&& post.packages@[i].versions == pre.packages@[i].versions
    &&& post.packages@[i].owners@ == union_owners(pre.packages@[i].owners@, ids)
}

/// Whether the list of owners holds this id.
fn contains_owner(owners: &Vec<u64>, id: u64) -> (r: bool)
    ensures
        r == owners@.contains(id),
{
    let n = owners.len();
    let mut k: usize = 0;
    while k < n
        invariant
            n == owners@.len(),
            k <= n,
            forall|l: int| 0 <= l < k ==> owners@[l] != id,
        decreases n - k,
    {
        if owners[k] == id {
            return true;
        }
        k = k + 1;
    }
    false
}

impl Registry {
    /// Set union into an existing package's owner set: already-present ids
    /// change nothing and raise no error. On a package that was never created
    /// the call is rejected and creates nothing — an update must not be usable
    /// to create a package.
    pub fn add_owners(&mut self, crate_name: &str, user_ids: &Vec<u64>) -> (r: Result<
        (),
        RegistryError,
    >)
        requires
            old(self).wf(),
        ensures
            final (self).wf(),
            r is Ok <==> old(self).has_package(crate_name@),
            r is Ok ==> add_owners_post(*old(self), *final (self), crate_name@, user_ids@),
            r is Err ==> *final (self) == *old(self),
            r matches Err(e) ==> e matches RegistryError::NonExistentPackageInfo {
                crate_name: n,
            } && n@ == crate_name@,
    {
        let found = self.find_package(crate_name);
        let i = match found {
            Some(i) => i,
            None => {
                return Err(
                    RegistryError::NonExistentPackageInfo { crate_name: crate_name.to_owned() },
                );
            },
        };
        let mut entry = self.packages.remove(i);
        let ghost old_entry = entry;
        let n = user_ids.len();
        let mut k: usize = 0;
        proof {
            assert(user_ids@.skip(0) =~= user_ids@);
        }
        while k < n
            invariant
                n == user_ids@.len(),
                k <= n,
                entry.name == old_entry.name,
                entry.versions == old_entry.versions,
                entry.owners@.len() >= old_entry.owners@.len(),
                old_entry.wf() ==> forall|a: int, b: int|
                    0 <= a < b < entry.owners@.len() ==> entry.owners@[a] != entry.owners@[b],
                union_owners(old_entry.owners@, user_ids@) == union_owners(
                    entry.owners@,
                    user_ids@.skip(k as int),
                ),
            decreases n - k,
        {
            let id = user_ids[k];
            proof {
                assert(user_ids@.skip(k as int)[0] == user_ids@[k as int]);
                assert(user_ids@.skip(k as int).skip(1) =~= user_ids@.skip(k as int + 1));
            }
            if !contains_owner(&entry.owners, id) {
                entry.owners.push(id);
            }
            k = k + 1;
        }
        proof {
            assert(user_ids@.skip(n as int) =~= Seq::<u64>::empty());
        }
        let ghost ne = entry;
        self.packages.insert(i, entry);
        proof {
            assert(self.packages@ =~= old(self).packages@.update(i as int, ne));
            assert(old(self).packages@[i as int].wf());
            assert(self.wf());
        }
        Ok(())
    }

    /// The newest version by precedence; among precedence-equal versions the
    /// latest-published one. Fails exactly when the package was never
    /// published.
    pub fn head_version(&self, crate_name: &str) -> (r: Result<Version, RegistryError>)
        requires
            self.wf(),
        ensures
            r is Ok <==> self.has_package(crate_name@),
            r matches Ok(v) ==> is_head_of(self.versions_of(crate_name@), v@),
            r matches Err(e) ==> e matches RegistryError::NonExistentPackageInfo {
                crate_name: n,
            } && n@ == crate_name@,
    {
        let found = self.find_package(crate_name);
        let i = match found {
            Some(i) => i,
            None => {
                return Err(
                    RegistryError::NonExistentPackageInfo { crate_name: crate_name.to_owned() },
                );
            },
        };
        let entry = &self.packages[i];
        proof {
            assert(self.packages@[i as int].wf());
        }
        let n = entry.versions.len();
        let mut best: usize = 0;
        let mut k: usize = 1;
        while k < n
            invariant
                n == entry.versions@.len(),
                best < k <= n,
                forall|m: int|
                    0 <= m < k ==> version_le(
                        (#[trigger] entry.versions@[m]).version@,
                        entry.versions@[best as int].version@,
                    ),
                forall|m: int|
                    best < m < k ==> !version_prec_eq(
                        (#[trigger] entry.versions@[m]).version@,
                        entry.versions@[best as int].version@,
                    ),
            decreases n - k,
        {
            let ghost bv = entry.versions@[best as int].version@;
            let ghost kv = entry.versions@[k as int].version@;
            proof {
                lemma_version_order_total(kv, bv);
            }
            if !lt_version(&entry.versions[k].version, &entry.versions[best].version) {
                proof {
                    assert forall|m: int| 0 <= m < k + 1 implies version_le(
                        (#[trigger] entry.versions@[m]).version@,
                        kv,
                    ) by {
                        if m < k {
                            lemma_version_le_trans(entry.versions@[m].version@, bv, kv);
                        }
                    }
                }
                best = k;
            }
            k = k + 1;
        }
        let v = entry.versions[best].version.duplicate();
        proof {
            assert(self.versions_of(crate_name@)[best as int].version@ == v@);
        }
        Ok(v)
    }

    /// One version's stored data. A missing package and a missing version of
    /// an existing package are told apart.
    pub fn get_version_info(&self, crate_name: &str, version: &Version) -> (r: Result<
        VersionRecord,
        RegistryError,
    >)
        requires
            self.wf(),
        ensures
            r is Ok <==> self.has_version(crate_name@, version@),
            r matches Ok(rec) ==> rec@ == self.record_of(crate_name@, version@)@,
            r matches Err(e) ==> {
                ||| (e matches RegistryError::NonExistentPackageInfo { crate_name: n } && n@
                    == crate_name@ && !self.has_package(crate_name@))
                ||| (e matches RegistryError::NonExistentCrateVersion { crate_name: n, version: v }
                    && n@ == crate_name@ && v@ == version@ && self.has_package(crate_name@))
            },
    {
        let found = self.find_package(crate_name);
        let i = match found {
            Some(i) => i,
            None => {
                return Err(
                    RegistryError::NonExistentPackageInfo { crate_name: crate_name.to_owned() },
                );
            },
        };
        let jop = Self::find_version(&self.packages[i], version);
        let j = match jop {
            Some(j) => j,
            None => {
                return Err(
                    RegistryError::NonExistentCrateVersion {
                        crate_name: crate_name.to_owned(),
                        version: version.duplicate(),
                    },
                );
            },
        };
        proof {
            assert(self.versions_of(crate_name@)[j as int].version@ == version@);
            lemma_version_index_unique(*self, crate_name@, j as int);
        }
        Ok(self.packages[i].versions[j].duplicate())
    }
}

/// A first-time publish followed immediately by a read returns exactly the
/// stored version's data: the version exists, its record holds the given
/// metadata and checksum, is not yanked, and stands last in publish order —
/// and on a brand-new package it is the only one.
pub proof fn lemma_store_then_get(
    r0: Registry,
    r1: Registry,
    name: Seq<char>,
    v: VersionView,
    metadata: Seq<u8>,
    checksum: u64,
    publisher: u64,
)
    requires
        r0.wf(),
        r1.wf(),
        !r0.has_version(name, v),
        store_ok_post(r0, r1, name, v, metadata, checksum, publisher),
    ensures
        r1.has_version(name, v),
        record_matches(r1.record_of(name, v), v, metadata, checksum, false),
        r1.versions_of(name) == r1.versions_of(name).take(r1.versions_of(name).len() - 1).push(
            r1.record_of(name, v),
        ),
        r0.has_package(name) ==> r1.versions_of(name).len() == r0.versions_of(name).len() + 1,
        !r0.has_package(name) ==> r1.versions_of(name).len() == 1 && r1.owners_of(name) == seq![
            publisher,
        ],
{
    if r0.has_package(name) {
        let i = r0.package_index(name);
        lemma_package_index_unique(r1, name, i);
        lemma_version_index_unique(r1, name, r1.versions_of(name).len() - 1);
        assert(r1.versions_of(name) =~= r1.versions_of(name).take(
            r1.versions_of(name).len() - 1,
        ).push(r1.versions_of(name).last()));
    } else {
        let n = r0.packages@.len() as int;
        lemma_package_index_unique(r1, name, n);
        lemma_version_index_unique(r1, name, 0);
        assert(r1.versions_of(name) =~= r1.versions_of(name).take(
            r1.versions_of(name).len() - 1,
        ).push(r1.versions_of(name).last()));
    }
}

/// Two registries that cannot be told apart by any read: the same packages by
/// name, the same owner sets, and records holding the same data.
pub open spec fn observably_equal(a: Registry, b: Registry) -> bool {
    &&& a.packages@.len() == b.packages@.len()
    &&& forall|i: int|
        0 <= i < a.packages@.len() ==> (#[trigger] a.packages@[i]).name@ == b.packages@[i].name@
            && a.packages@[i].owners@ == b.packages@[i].owners@ && records_match(
            a.packages@[i].versions@,
            b.packages@[i].versions@,
        )
}

/// Setting the yanked flag a second time to the same value succeeds again and
/// leaves every stored datum as it was.
pub proof fn lemma_set_yanked_idempotent(
    r0: Registry,
    r1: Registry,
    r2: Registry,
    name: Seq<char>,
    v: VersionView,
    yanked: bool,
)
    requires
        r0.wf(),
        r1.wf(),
        r0.has_version(name, v),
        yank_post(r0, r1, name, v, yanked),
        yank_post(r1, r2, name, v, yanked),
    ensures
        r1.has_version(name, v),
        observably_equal(r2, r1),
{
    let i = r0.package_index(name);
    let j = r0.version_index(name, v);
    lemma_package_index_unique(r1, name, i);
    assert(r1.versions_of(name)[j].version@ == v);
    lemma_version_index_unique(r1, name, j);
}

/// Adding only already-present owners changes nothing observable anywhere.
pub proof fn lemma_add_owners_idempotent(
    r0: Registry,
    r1: Registry,
    name: Seq<char>,
    ids: Seq<u64>,
)
    requires
        r0.wf(),
        r0.has_package(name),
        add_owners_post(r0, r1, name, ids),
        forall|k: int| 0 <= k < ids.len() ==> r0.owners_of(name).contains(#[trigger] ids[k]),
    ensures
        r1.packages@.len() == r0.packages@.len(),
        forall|k: int|
            0 <= k < r0.packages@.len() && k != r0.package_index(name) ==> r1.packages@[k]
                == r0.packages@[k],
        r1.packages@[r0.package_index(name)].owners@ == r0.owners_of(name),
        r1.packages@[r0.package_index(name)].name == r0.package(name).name,
        r1.packages@[r0.package_index(name)].versions == r0.package(name).versions,
{
    lemma_union_owners_idempotent(r0.owners_of(name), ids);
}

/// Whether `v` is the head version of the records `vs`: present, preceded by
/// none, and later than every precedence-equal record.
pub open spec fn is_head_of(vs: Seq<VersionRecord>, v: VersionView) -> bool {
    exists|j: int|
        0 <= j < vs.len() && (#[trigger] vs[j]).version@ == v && (forall|k: int|
            0 <= k < vs.len() ==> version_le((#[trigger] vs[k]).version@, v)) && (forall|k: int|
            j < k < vs.len() ==> !version_prec_eq((#[trigger] vs[k]).version@, v))
}

} // verus!
