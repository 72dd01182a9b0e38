//! Named OS-backed shared memory mappings of fixed length, with
//! create-or-open semantics: joining an existing mapping is not an
//! error, but joining one of another length is.
use vstd::prelude::*;
use crate::errors::SetupError;

verus! {

#[verifier::external_type_specification]
#[verifier::external_body]
pub struct ExShmem(shared_memory::Shmem);

/// The fixed byte length of a shared memory mapping.
pub uninterp spec fn shmem_len(m: shared_memory::Shmem) -> nat;

/// How this process came by a shared region: it created the OS object,
/// or it opened one that already existed.
#[derive(Clone, Copy, Debug, PartialEq, Eq, Structural)]
pub enum CreationMode {
    Created,
    Opened,
}

enum RawCreate {
    Created(shared_memory::Shmem),
    IdExists,
    Failed,
}

/// Relies on shared_memory::ShmemConf::create with an os id and a size:
/// on success the mapping has exactly the requested size; when the id
/// is already taken it fails with `MappingIdExists`.
#[verifier::external_body]
fn shmem_create_raw(id: &str, length: usize) -> (r: RawCreate)
    ensures
        r matches RawCreate::Created(m) ==> shmem_len(m) == length,
{
    match shared_memory::ShmemConf::new().size(length).os_id(id).create() {
        Ok(m) => RawCreate::Created(m),
        Err(shared_memory::ShmemError::MappingIdExists) => RawCreate::IdExists,
        Err(_) => RawCreate::Failed,
    }
}

/// Relies on shared_memory::ShmemConf::open with an os id: it maps the
/// whole existing object, whose length comes from the object itself.
#[verifier::external_body]
fn shmem_open_raw(id: &str) -> (r: Option<shared_memory::Shmem>) {
    shared_memory::ShmemConf::new().os_id(id).open().ok()
}

/// Relies on shared_memory::Shmem::len: the byte length of the mapping.
#[verifier::external_body]
fn shmem_len_of(m: &shared_memory::Shmem) -> (r: usize)
    ensures
        r == shmem_len(*m),
{
    m.len()
}

/// A named OS-backed shared memory mapping of fixed byte length. The
/// underlying object outlives the mapping until its creator drops it,
/// so exactly one handle — the creator's — carries the unlink duty.
pub struct SharedRegion {
    shm: shared_memory::Shmem,
    length: usize,
    mode: CreationMode,
}

impl SharedRegion {
    /// The mapping's fixed byte length.
    pub closed spec fn spec_len(&self) -> nat {
        shmem_len(self.shm)
    }

    /// How this handle came by the mapping.
    pub closed spec fn spec_mode(&self) -> CreationMode {
        self.mode
    }

    /// The cached length agrees with the mapping.
    pub closed spec fn wf(&self) -> bool {
        self.length as nat == shmem_len(self.shm)
    }

    /// Create the named mapping, or join it if it already exists — an
    /// idempotent join, not an error. Joining succeeds only when the
    /// existing mapping has exactly the requested length; otherwise it
    /// fails with `AlreadyExistsIncompatible`, which carries the
    /// requested and the found length.
    pub fn open_or_create(id: &str, length: usize) -> (r: Result<SharedRegion, SetupError>)
        ensures
            r matches Ok(reg) ==> reg.wf() && reg.spec_len() == length,
            r matches Err(SetupError::AlreadyExistsIncompatible(requested, found)) ==> requested
                == length && found != length,
    {
        match shmem_create_raw(id, length) {
            RawCreate::Created(m) => Ok(
                SharedRegion { shm: m, length, mode: CreationMode::Created },
            ),
            RawCreate::IdExists => match shmem_open_raw(id) {
                Some(m) => {
                    let found = shmem_len_of(&m);
                    if found == length {
                        Ok(SharedRegion { shm: m, length, mode: CreationMode::Opened })
                    } else {
                        Err(SetupError::AlreadyExistsIncompatible(length, found))
                    }
                },
                None => Err(SetupError::RegionUnavailable),
            },
            RawCreate::Failed => Err(SetupError::RegionUnavailable),
        }
    }

    /// The mapping's byte length.
    pub fn len(&self) -> (r: usize)
        requires
            self.wf(),
        ensures
            r == self.spec_len(),
    {
        self.length
    }

    /// How this handle came by the mapping.
    pub fn mode(&self) -> (r: CreationMode)
        ensures
            r == self.spec_mode(),
    {
        self.mode
    }

    /// Whether this handle created the OS object, and so carries the
    /// duty to unlink it — exactly one handle per object does, which
    /// guards against a double unlink.
    pub fn is_creator(&self) -> (r: bool)
        ensures
            r == (self.spec_mode() == CreationMode::Created),
    {
        match self.mode {
            CreationMode::Created => true,
            CreationMode::Opened => false,
        }
    }

    /// The raw mapping, for the byte transfers that must stay outside
    /// the verified library.
    pub fn raw(&self) -> (r: &shared_memory::Shmem)
        ensures
            shmem_len(*r) == self.spec_len(),
    {
        &self.shm
    }
}

} // verus!
