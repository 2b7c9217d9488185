//! The yank and unyank operations as the transport layer calls them: thin
//! state transitions against the registry, existence-checked there; whether
//! the acting user may yank is a policy the caller layers on top.

use vstd::prelude::*;

use crate::error::RegistryError;
use crate::registry::{yank_post, Registry};
use crate::version::Version;

verus! {

/// The body of a successful yank or unyank reply.
pub struct Response {
    pub ok: bool,
}

/// Marks an existing version as not recommended for new use. Fails on a
/// version that was never published and changes nothing then; idempotent.
pub fn yank(registry: &mut Registry, crate_name: &str, version: &Version) -> (r: Result<
    Response,
    RegistryError,
>)
    requires
        old(registry).wf(),
    ensures
        final (registry).wf(),
        r is Ok <==> old(registry).has_version(crate_name@, version@),
        r is Ok ==> yank_post(*old(registry), *final (registry), crate_name@, version@, true),
        r matches Ok(resp) ==> resp.ok,
        r is Err ==> *final (registry) == *old(registry),
        r matches Err(e) ==> e matches RegistryError::NonExistentCrateVersion {
            crate_name: n,
            version: v,
        } && n@ == crate_name@ && v@ == version@,
{
    match registry.set_yanked(crate_name, version, true) {
        Ok(()) => Ok(Response { ok: true }),
        Err(e) => Err(e),
    }
}

/// Clears the yanked mark of an existing version; the same conditions and
/// idempotence as `yank`.
pub fn unyank(registry: &mut Registry, crate_name: &str, version: &Version) -> (r: Result<
    Response,
    RegistryError,
>)
    requires
        old(registry).wf(),
    ensures
        final (registry).wf(),
        r is Ok <==> old(registry).has_version(crate_name@, version@),
        r is Ok ==> yank_post(*old(registry), *final (registry), crate_name@, version@, false),
        r matches Ok(resp) ==> resp.ok,
        r is Err ==> *final (registry) == *old(registry),
        r matches Err(e) ==> e matches RegistryError::NonExistentCrateVersion {
            crate_name: n,
            version: v,
        } && n@ == crate_name@ && v@ == version@,
{
    match registry.set_yanked(crate_name, version, false) {
        Ok(()) => Ok(Response { ok: true }),
        Err(e) => Err(e),
    }
}

} // verus!
