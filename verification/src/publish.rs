//! The publish pipeline: decode the untrusted upload, write the tarball to
//! the blob store under its derived key, then commit the metadata record.
//! The blob is written before the record becomes visible, so a visible
//! version always has a retrievable archive; a commit that fails afterwards
//! may orphan a blob, which is acceptable, but never the reverse.

use vstd::prelude::*;

use crate::checksum::{checksum, spec_checksum};
use crate::codec::{
    decode_publish, frame_metadata, frame_tarball, payload_name, payload_version,
    publish_payload_ok,
};
use crate::error::RegistryError;
use crate::keys::{blob_key, spec_blob_key};
use crate::registry::{store_ok_post, Registry};
use crate::version::Version;
use vstd::string::StringExecFns;

verus! {

/// The blob store, modelled in memory: one archive per key, the latest write
/// winning, as an object store behaves.
pub struct BlobStore {
    pub blobs: Vec<(String, Vec<u8>)>,
}

impl BlobStore {
    /// Each key is held once.
    pub open spec fn wf(self) -> bool {
        forall|i: int, j: int|
            0 <= i < j < self.blobs@.len() ==> (#[trigger] self.blobs@[i]).0@ != (
            #[trigger] self.blobs@[j]).0@
    }

    /// Whether an archive is retrievable under this key.
    pub open spec fn has_blob(self, key: Seq<char>) -> bool {
        exists|i: int| 0 <= i < self.blobs@.len() && (#[trigger] self.blobs@[i]).0@ == key
    }

    /// The position of the key's archive (meaningful under `has_blob`).
    pub open spec fn blob_index(self, key: Seq<char>) -> int {
        choose|i: int| 0 <= i < self.blobs@.len() && (#[trigger] self.blobs@[i]).0@ == key
    }

    /// The bytes retrievable under this key.
    pub open spec fn blob_content(self, key: Seq<char>) -> Seq<u8> {
        self.blobs@[self.blob_index(key)].1@
    }

    /// An empty blob store.
    pub fn new() -> (r: BlobStore)
        ensures
            r.wf(),
            r.blobs@.len() == 0,
    {
        BlobStore { blobs: Vec::new() }
    }
}

/// In a well-formed store a key sits at one position only.
pub proof fn lemma_blob_index_unique(s: BlobStore, key: Seq<char>, i: int)
    requires
        s.wf(),
        0 <= i < s.blobs@.len(),
        s.blobs@[i].0@ == key,
    ensures
        s.has_blob(key),
        s.blob_index(key) == i,
{
    assert(s.has_blob(key));
    let j = s.blob_index(key);
    if j < i {
        assert(s.blobs@[j].0@ != s.blobs@[i].0@);
    } else if i < j {
        assert(s.blobs@[i].0@ != s.blobs@[j].0@);
    }
}

impl BlobStore {
    /// Finds the position of a key.
    fn find_blob(&self, key: &str) -> (r: Option<usize>)
        requires
            self.wf(),
        ensures
            match r {
                Some(i) => self.has_blob(key@) && i == self.blob_index(key@) && i
                    < self.blobs@.len(),
                None => !self.has_blob(key@),
            },
    {
        let key_owned: String = key.to_owned();
        let n = self.blobs.len();
        let mut i: usize = 0;
        while i < n
            invariant
                self.wf(),
                n == self.blobs@.len(),
                i <= n,
                key_owned@ == key@,
                forall|k: int| 0 <= k < i ==> (#[trigger] self.blobs@[k]).0@ != key@,
            decreases n - i,
        {
            if self.blobs[i].0 == key_owned {
                proof {
                    lemma_blob_index_unique(*self, key@, i as int);
                }
                return Some(i);
            }
            i = i + 1;
        }
        None
    }

    /// Stores an archive durably under its key, replacing any earlier write.
    pub fn put(&mut self, key: String, bytes: Vec<u8>)
        requires
            old(self).wf(),
        ensures
            final (self).wf(),
            forall|k: Seq<char>|
                final (self).has_blob(k) <==> (old(self).has_blob(k) || k == key@),
            final (self).blob_content(key@) == bytes@,
            forall|k: Seq<char>|
                old(self).has_blob(k) && k != key@ ==> final (self).blob_content(k) == old(
                    self,
                ).blob_content(k),
    {
        let found = self.find_blob(key.as_str());
        let ghost pre = *self;
        let ghost keyv = key@;
        let ghost bytesv = bytes@;
        match found {
            Some(i) => {
                self.blobs.set(i, (key, bytes));
                proof {
                    assert forall|k: Seq<char>|
                        final (self).has_blob(k) <==> (pre.has_blob(k) || k == keyv) by {
                        if pre.has_blob(k) {
                            let w = pre.blob_index(k);
                            if w == i {
                                assert(k == keyv);
                                assert(self.blobs@[w].0@ == k);
                            } else {
                                assert(self.blobs@[w].0@ == k);
                            }
                        }
                        if k == keyv {
                            assert(self.blobs@[i as int].0@ == k);
                        }
                        if self.has_blob(k) {
                            let w = self.blob_index(k);
                            if w != i {
                                assert(pre.blobs@[w].0@ == k);
                            }
                        }
                    }
                    lemma_blob_index_unique(*self, keyv, i as int);
                    assert(self.blob_content(keyv) == bytesv);
                    assert forall|k: Seq<char>|
                        pre.has_blob(k) && k != keyv implies final (self).blob_content(k) == pre.blob_content(
                        k,
                    ) by {
                        let w = pre.blob_index(k);
                        lemma_blob_index_unique(pre, k, w);
                        assert(self.blobs@[w].0@ == k);
                        lemma_blob_index_unique(*self, k, w);
                    }
                }
            },
            None => {
                let n = self.blobs.len();
                self.blobs.push((key, bytes));
                proof {
                    assert(self.blobs@[n as int].0@ == keyv);
                    assert forall|k: Seq<char>|
                        final (self).has_blob(k) <==> (pre.has_blob(k) || k == keyv) by {
                        if pre.has_blob(k) {
                            let w = pre.blob_index(k);
                            assert(self.blobs@[w].0@ == k);
                        }
                        if self.has_blob(k) {
                            let w = self.blob_index(k);
                            if w < n {
                                assert(pre.blobs@[w].0@ == k);
                            }
                        }
                    }
                    assert forall|i: int, j: int|
                        0 <= i < j < self.blobs@.len() implies (#[trigger] self.blobs@[i]).0@ != (
                    #[trigger] self.blobs@[j]).0@ by {
                        if j == n {
                            assert(pre.blobs@[i].0@ == self.blobs@[i].0@);
                            assert(!pre.has_blob(keyv));
                        }
                    }
                    lemma_blob_index_unique(*self, keyv, n as int);
                    assert forall|k: Seq<char>|
                        pre.has_blob(k) && k != keyv implies final (self).blob_content(k) == pre.blob_content(
                        k,
                    ) by {
                        let w = pre.blob_index(k);
                        lemma_blob_index_unique(pre, k, w);
                        assert(self.blobs@[w].0@ == k);
                        lemma_blob_index_unique(*self, k, w);
                    }
                }
            },
        }
    }

    /// Retrieves the archive stored under a key, or nothing.
    pub fn get(&self, key: &str) -> (r: Option<Vec<u8>>)
        requires
            self.wf(),
        ensures
            r is Some <==> self.has_blob(key@),
            r matches Some(b) ==> b@ == self.blob_content(key@),
    {
        match self.find_blob(key) {
            Some(i) => {
                let b = self.blobs[i].1.clone();
                proof {
                    assert(b@ =~= self.blob_content(key@));
                }
                Some(b)
            },
            None => None,
        }
    }
}

/// The coverage invariant: every committed version record's archive is
/// retrievable under its derived key — metadata never points at a missing
/// blob.
pub open spec fn blobs_cover(reg: Registry, blobs: BlobStore) -> bool {
    forall|i: int, j: int|
        0 <= i < reg.packages@.len() && 0 <= j < (#[trigger] reg.packages@[i]).versions@.len()
            ==> blobs.has_blob(
            spec_blob_key(
                reg.packages@[i].name@,
                (#[trigger] reg.packages@[i].versions@[j]).version@,
            ),
        )
}

/// One publish, as one logical operation: decode, write the archive, commit
/// the record. It succeeds exactly on a decodable payload whose (name,
/// version) was never published; a malformed payload changes nothing; a
/// duplicate leaves the registry unchanged (the freshly rewritten blob is an
/// accepted orphan). Whatever happens, committed metadata never outruns the
/// blob store.
pub fn publish(
    reg: &mut Registry,
    blobs: &mut BlobStore,
    publisher: u64,
    payload: &Vec<u8>,
) -> (r: Result<Version, RegistryError>)
    requires
        old(reg).wf(),
        old(blobs).wf(),
        blobs_cover(*old(reg), *old(blobs)),
    ensures
        final (reg).wf(),
        final (blobs).wf(),
        blobs_cover(*final (reg), *final (blobs)),
        r is Ok <==> publish_payload_ok(payload@) && !old(reg).has_version(
            payload_name(payload@),
            payload_version(payload@),
        ),
        r matches Ok(v) ==> {
            &&& v@ == payload_version(payload@)
            &&& store_ok_post(
                *old(reg),
                *final (reg),
                payload_name(payload@),
                payload_version(payload@),
                frame_metadata(payload@),
                spec_checksum(frame_tarball(payload@)),
                publisher,
            )
            &&& final (blobs).blob_content(
                spec_blob_key(payload_name(payload@), payload_version(payload@)),
            ) == frame_tarball(payload@)
        },
        !publish_payload_ok(payload@) ==> *final (reg) == *old(reg) && *final (blobs) == *old(
            blobs,
        ) && (r matches Err(e) && e is MalformedPayload),
        r is Err && publish_payload_ok(payload@) ==> *final (reg) == *old(reg) && (
        r matches Err(e) && e matches RegistryError::DuplicateCrateVersion {
            crate_name: n,
            version: v,
        } && n@ == payload_name(payload@) && v@ == payload_version(payload@)),
{
    let data = match decode_publish(payload) {
        Ok(d) => d,
        Err(e) => {
            return Err(e);
        },
    };
    let key = blob_key(data.name.as_str(), &data.vers);
    let cks = checksum(&data.tarball);
    let ghost keyv = key@;
    blobs.put(key, data.tarball);
    let res = reg.store_package_info(data.name.as_str(), &data.vers, data.metadata, cks, publisher);
    proof {
        let rpre = *old(reg);
        let rpost = *reg;
        let name = payload_name(payload@);
        let v = payload_version(payload@);
        if res is Ok {
            assert forall|i: int, j: int|
                0 <= i < rpost.packages@.len() && 0 <= j < (
            #[trigger] rpost.packages@[i]).versions@.len() implies blobs.has_blob(
                spec_blob_key(
                    rpost.packages@[i].name@,
                    (#[trigger] rpost.packages@[i].versions@[j]).version@,
                ),
            ) by {
                if rpre.has_package(name) {
                    let pi = rpre.package_index(name);
                    if i == pi && j == rpost.packages@[i].versions@.len() - 1 {
                        assert(rpost.packages@[i].versions@[j].version@ == v);
                        assert(rpost.packages@[i].name@ == name);
                    } else if i == pi {
                        assert(rpost.packages@[i].versions@.take(
                            rpre.packages@[pi].versions@.len() as int,
                        )[j] == rpost.packages@[i].versions@[j]);
                        assert(rpre.packages@[i].versions@[j]
                            == rpost.packages@[i].versions@[j]);
                        assert(old(blobs).has_blob(
                            spec_blob_key(
                                rpre.packages@[i].name@,
                                rpre.packages@[i].versions@[j].version@,
                            ),
                        ));
                    } else {
                        assert(rpost.packages@[i] == rpre.packages@[i]);
                        assert(old(blobs).has_blob(
                            spec_blob_key(
                                rpre.packages@[i].name@,
                                rpre.packages@[i].versions@[j].version@,
                            ),
                        ));
                    }
                } else {
                    if i == rpost.packages@.len() - 1 {
                        assert(rpost.packages@[i].versions@[j].version@ == v);
                        assert(rpost.packages@[i].name@ == name);
                    } else {
                        assert(rpost.packages@.take(rpre.packages@.len() as int)[i]
                            == rpost.packages@[i]);
                        assert(rpre.packages@[i] == rpost.packages@[i]);
                        assert(old(blobs).has_blob(
                            spec_blob_key(
                                rpre.packages@[i].name@,
                                rpre.packages@[i].versions@[j].version@,
                            ),
                        ));
                    }
                }
            }
        } else {
            assert(rpost == rpre);
            assert forall|i: int, j: int|
                0 <= i < rpost.packages@.len() && 0 <= j < (
            #[trigger] rpost.packages@[i]).versions@.len() implies blobs.has_blob(
                spec_blob_key(
                    rpost.packages@[i].name@,
                    (#[trigger] rpost.packages@[i].versions@[j]).version@,
                ),
            ) by {
                assert(old(blobs).has_blob(
                    spec_blob_key(
                        rpre.packages@[i].name@,
                        rpre.packages@[i].versions@[j].version@,
                    ),
                ));
            }
        }
    }
    match res {
        Ok(()) => Ok(data.vers),
        Err(e) => Err(e),
    }
}

} // verus!
