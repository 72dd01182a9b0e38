//! Protection domains and the protected text regions they guard. A
//! domain owns a hardware protection key; a region is a page tagged
//! with that key whose stored text is read through `lock()` and
//! replaced through `modify()`. On machines without protection keys a
//! domain degrades, explicitly, to an unprotected page with the same
//! interface.
use vstd::prelude::*;
use std::sync::Arc;
use crate::errors::SetupError;

verus! {

#[verifier::external_type_specification]
#[verifier::external_body]
pub struct ExProtectionKeys(pkey_mprotect::ProtectionKeys);

#[verifier::external_type_specification]
#[verifier::external_body]
#[verifier::reject_recursive_types(T)]
pub struct ExProtectedRegion<T>(pkey_mprotect::ProtectedRegion<T>);

#[verifier::external_type_specification]
#[verifier::external_body]
pub struct ExProtectionError(pkey_mprotect::ProtectionError);

/// The text a protected page stores. The page is written once, when
/// the region is made, and never again through the crate's interface.
pub uninterp spec fn region_text(r: pkey_mprotect::ProtectedRegion<String>) -> Seq<char>;

/// Relies on pkey_mprotect::ProtectionKeys::new: allocates a hardware
/// protection key; with `require_protected` set it fails where the
/// hardware offers none, otherwise it degrades to a stub that guards
/// nothing.
#[verifier::external_body]
fn keys_allocate(require_protected: bool) -> (r: Result<
    Arc<pkey_mprotect::ProtectionKeys>,
    pkey_mprotect::ProtectionError,
>) {
    pkey_mprotect::ProtectionKeys::new(require_protected)
}

/// Relies on pkey_mprotect::ProtectionKeys::is_empty: tells whether the
/// handle carries a real hardware key or the degraded stub.
#[verifier::external_body]
fn keys_is_stub(keys: &Arc<pkey_mprotect::ProtectionKeys>) -> (r: bool) {
    keys.is_empty()
}

/// Relies on pkey_mprotect::ProtectionKeys::make_region: maps one page
/// under the key's guard and stores `initial` in it; the stored value
/// is a function of `initial` alone.
#[verifier::external_body]
fn keys_make_region(
    keys: &Arc<pkey_mprotect::ProtectionKeys>,
    initial: String,
) -> (r: Result<Arc<pkey_mprotect::ProtectedRegion<String>>, pkey_mprotect::ProtectionError>)
    ensures
        r matches Ok(reg) ==> region_text(*reg) == initial@,
{
    keys.make_region(initial)
}

/// Relies on pkey_mprotect::ProtectedRegion::lock and the read guard it
/// returns: the guard grants read access and hands out the stored
/// value, which the clone copies out.
#[verifier::external_body]
fn region_read(reg: &Arc<pkey_mprotect::ProtectedRegion<String>>) -> (s: String)
    ensures
        s@ == region_text(**reg),
{
    reg.lock().clone()
}

/// A capability over one hardware protection key, from which protected
/// regions are made. Where the hardware offers no keys and the caller
/// allowed it, the domain is degraded: same interface, no protection.
pub struct ProtectionDomain {
    keys: Arc<pkey_mprotect::ProtectionKeys>,
    degraded: bool,
}

impl ProtectionDomain {
    /// Allocate a protection key. With `require_protected` set, a
    /// machine without free hardware keys yields `KeyExhausted` — keys
    /// are a hard per-process resource limit. Without it, such a
    /// machine yields a degraded domain, reported by `is_degraded`.
    pub fn allocate(require_protected: bool) -> (r: Result<ProtectionDomain, SetupError>)
        ensures
            r matches Err(e) ==> e == SetupError::KeyExhausted,
    {
        match keys_allocate(require_protected) {
            Ok(keys) => {
                let degraded = keys_is_stub(&keys);
                Ok(ProtectionDomain { keys, degraded })
            },
            Err(_) => Err(SetupError::KeyExhausted),
        }
    }

    /// Whether this domain guards nothing because the hardware offers
    /// no protection keys — a documented capability degradation, never
    /// a silent one.
    pub fn is_degraded(&self) -> bool {
        self.degraded
    }
}

/// A logical text value backed by a page under a protection domain.
/// `lock()` returns a copy of the value; `modify()` replaces it. One
/// role owns the region and writes it; the peer only ever reads. The
/// stored text carries its own length, so a reader gets back exactly
/// the value written — never trailing page bytes, and no padding is
/// ever needed around it.
pub struct TextRegion {
    keys: Arc<pkey_mprotect::ProtectionKeys>,
    region: Arc<pkey_mprotect::ProtectedRegion<String>>,
}

impl TextRegion {
    /// The text the region holds.
    pub closed spec fn contents(&self) -> Seq<char> {
        region_text(*self.region)
    }

    /// Make a region over `domain` holding `initial`.
    pub fn new(domain: &ProtectionDomain, initial: String) -> (r: Result<TextRegion, SetupError>)
        ensures
            r matches Ok(reg) ==> reg.contents() == initial@,
            r matches Err(e) ==> e == SetupError::ProtectionUnavailable,
    {
        match keys_make_region(&domain.keys, initial) {
            Ok(region) => Ok(TextRegion { keys: Arc::clone(&domain.keys), region }),
            Err(_) => Err(SetupError::ProtectionUnavailable),
        }
    }

    /// Acquire read access and return a copy of the stored text.
    ///
    /// Together with `modify()` this gives the round-trip identity: a
    /// `lock()` right after `modify(v)` returns exactly `v`.
    pub fn lock(&self) -> (s: String)
        ensures
            s@ == self.contents(),
    {
        region_read(&self.region)
    }

    /// Replace the stored text by `value`: take a fresh guarded page
    /// holding the new value and retire the old one. On failure the
    /// region keeps its old contents.
    pub fn modify(&mut self, value: String) -> (r: Result<(), SetupError>)
        ensures
            r is Ok ==> final(self).contents() == value@,
            r is Err ==> final(self).contents() == old(self).contents(),
    {
        match keys_make_region(&self.keys, value) {
            Ok(region) => {
                self.region = region;
                Ok(())
            },
            Err(_) => Err(SetupError::ProtectionUnavailable),
        }
    }
}

} // verus!
