//! The error taxonomy shared by every component: each failure that crosses a
//! component boundary is classified into exactly one of these kinds.

use vstd::prelude::*;

use crate::version::Version;

verus! {

/// The classified failures of the registry core.
///
/// The first five are client faults; `WriteConflict` reports a transactional
/// race on package creation (the caller may retry); `InternalError` is any
/// unexpected store failure, opaque to the client.
#[derive(Debug)]
pub enum RegistryError {
    /// The upload bytes do not match the binary or JSON publish contract.
    MalformedPayload,
    /// A record for this exact (name, version) already exists.
    DuplicateCrateVersion { crate_name: String, version: Version },
    /// The package was never published at all.
    NonExistentPackageInfo { crate_name: String },
    /// The package may exist, but this exact version does not.
    NonExistentCrateVersion { crate_name: String, version: Version },
    /// The credential is invalid or insufficient.
    Unauthorized,
    /// The store reported a transactional race on package creation.
    WriteConflict,
    /// An unexpected store failure, never retried by the core.
    InternalError,
}

} // verus!
