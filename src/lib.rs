//! The ingestion path of a package registry: the publish envelope, the
//! package-name grammar, create-once artifact storage and the publish step
//! that ties them together.
use vstd::prelude::*;

pub mod crate_files;
pub mod dependency_kind;
pub mod framing;
pub mod package_name;
pub mod publish;

verus! {

/// A registry server: the artifact store it publishes to and the identity
/// check it asks first.
pub struct RegistryServer<AP, CFS> {
    crate_file_storage: CFS,
    auth_provider: AP,
}

impl<AP, CFS> RegistryServer<AP, CFS> {
    pub closed spec fn storage(&self) -> CFS {
        self.crate_file_storage
    }

    pub closed spec fn auth(&self) -> AP {
        self.auth_provider
    }

    pub fn new(crate_file_storage: CFS, auth_provider: AP) -> (r: RegistryServer<AP, CFS>)
        ensures
            r.storage() == crate_file_storage,
            r.auth() == auth_provider,
    {
        RegistryServer { crate_file_storage, auth_provider }
    }

    /// Takes the server apart into its store and its identity check.
    pub fn into_parts(self) -> (r: (CFS, AP))
        ensures
            r == (self.storage(), self.auth()),
    {
        (self.crate_file_storage, self.auth_provider)
    }
}

} // verus!
