//! The driver's across-request caches: the target's process id and the
//! world anchor's image offset, with their validation and invalidation rules.

use vstd::prelude::*;
use vstd::string::StringSliceAdditionalSpecFns;
use crate::abi::{
    APP_PROCESS_NAME, TARGET_PROCESS_NAME, ascii_prefix, lemma_app_name_bytes,
    lemma_target_name_bytes,
};
use crate::coord_chain::{pointer_step, pointer_step_fails, read_checked_ptr, valid_ptr};
use crate::coord_chain::STAGE_ANCHOR;
use crate::names::{has_byte_prefix, image_name_has_prefix};
use crate::pe_scan::{anchor_found_via, find_hardcoded_world_anchor};

verus! {

/// Bytes of `EPROCESS::ImageFileName` that are compared (the field is a
/// truncated, not always terminated, 15-byte buffer).
pub const IMAGE_NAME_PREFIX_LEN: usize = 14;

/// The first 14 bytes of the client's binary name.
pub fn app_name_prefix() -> (r: Vec<u8>)
    ensures
        r@ == APP_PROCESS_NAME.spec_bytes().take(14),
{
    proof {
        lemma_app_name_bytes();
    }
    ascii_prefix(APP_PROCESS_NAME, IMAGE_NAME_PREFIX_LEN)
}

/// The first 14 bytes of the target's binary name.
pub fn target_name_prefix() -> (r: Vec<u8>)
    ensures
        r@ == TARGET_PROCESS_NAME.spec_bytes().take(14),
{
    proof {
        lemma_target_name_bytes();
    }
    ascii_prefix(TARGET_PROCESS_NAME, IMAGE_NAME_PREFIX_LEN)
}

/// Whether the opening process's truncated image name is the client's.
pub fn caller_is_app(image_file_name: &[u8]) -> (r: bool)
    ensures
        r == has_byte_prefix(image_file_name@, APP_PROCESS_NAME.spec_bytes().take(14)),
{
    let prefix = app_name_prefix();
    image_name_has_prefix(image_file_name, prefix.as_slice())
}

/// Whether a process found under the cached id still looks like the target.
pub fn cached_process_is_target(image_file_name: &[u8]) -> (r: bool)
    ensures
        r == has_byte_prefix(image_file_name@, TARGET_PROCESS_NAME.spec_bytes().take(14)),
{
    let prefix = target_name_prefix();
    image_name_has_prefix(image_file_name, prefix.as_slice())
}

/// The target's cached process id and the world anchor's cached image offset
/// (0 = nothing cached).
pub struct LocatorCache {
    pid: u64,
    anchor_rva: u64,
}

impl LocatorCache {
    /// The cached process id, 0 when none.
    pub closed spec fn pid(&self) -> u64 {
        self.pid
    }

    /// The cached anchor offset, 0 when none.
    pub closed spec fn anchor_rva(&self) -> u64 {
        self.anchor_rva
    }

    /// Anchor offsets come from a 32-bit image size.
    #[verifier::type_invariant]
    closed spec fn wf(self) -> bool {
        self.anchor_rva <= 0xFFFF_FFFF
    }

    /// Nothing cached.
    pub fn new() -> (r: Self)
        ensures
            r.pid() == 0,
            r.anchor_rva() == 0,
    {
        LocatorCache { pid: 0, anchor_rva: 0 }
    }

    /// The process id to try before a full scan, if any.
    pub fn cached_pid(&self) -> (r: Option<u64>)
        ensures
            r == (if self.pid() == 0 {
                None
            } else {
                Some(self.pid())
            }),
    {
        if self.pid == 0 {
            None
        } else {
            Some(self.pid)
        }
    }

    /// The cached anchor offset, 0 when none.
    pub fn cached_anchor_rva(&self) -> (r: u64)
        ensures
            r == self.anchor_rva(),
    {
        self.anchor_rva
    }

    /// Outcome of looking the cached id up: it is kept only when a process was
    /// found under it and that process still looks like the target.
    pub fn validate_cached_pid(&mut self, found: bool, image_file_name: &[u8]) -> (r: bool)
        ensures
            r == (found && has_byte_prefix(
                image_file_name@,
                TARGET_PROCESS_NAME.spec_bytes().take(14),
            )),
            final(self).anchor_rva() == old(self).anchor_rva(),
            r ==> final(self).pid() == old(self).pid(),
            !r ==> final(self).pid() == 0,
    {
        proof {
            use_type_invariant(&*self);
        }
        if !found {
            self.pid = 0;
            return false;
        }
        if !cached_process_is_target(image_file_name) {
            self.pid = 0;
            return false;
        }
        true
    }

    /// Records the id of a process found by a full scan.
    pub fn remember_pid(&mut self, pid: u64)
        ensures
            final(self).pid() == pid,
            final(self).anchor_rva() == old(self).anchor_rva(),
    {
        proof {
            use_type_invariant(&*self);
        }
        self.pid = pid;
    }

    /// After a read of the chain: a failure to find the module base or the
    /// anchor (stage 1) may mean a dead process kept alive by the cache, so
    /// both caches are dropped; any other outcome keeps them.
    pub fn record_read_result(&mut self, result: Result<(), u8>)
        ensures
            result == Err::<(), u8>(STAGE_ANCHOR) ==> final(self).pid() == 0
                && final(self).anchor_rva() == 0,
            result != Err::<(), u8>(STAGE_ANCHOR) ==> final(self).pid() == old(self).pid()
                && final(self).anchor_rva() == old(self).anchor_rva(),
    {
        proof {
            use_type_invariant(&*self);
        }
        if let Err(stage) = result {
            if stage == STAGE_ANCHOR {
                self.pid = 0;
                self.anchor_rva = 0;
            }
        }
    }

    /// Resolves the world anchor of the module at `base`: the cached offset is
    /// tried first (one pointer read); otherwise the module is scanned, and
    /// the offset found is cached once a pointer is read through it.
    pub fn resolve_world_anchor(
        &mut self,
        base: u64,
        read_ptr: &impl Fn(u64) -> Option<u64>,
        read_mem: impl Fn(u64, usize) -> Option<Vec<u8>>,
    ) -> (r: Option<u64>)
        requires
            valid_ptr(base as int),
            forall|a: u64| read_ptr.requires((a,)),
            forall|a: u64, n: usize| read_mem.requires((a, n)),
            forall|a: u64, n: usize, out: Option<Vec<u8>>|
                read_mem.ensures((a, n), out) ==> (out matches Some(v) ==> v@.len() == n),
        ensures
            final(self).pid() == old(self).pid(),
            r matches Some(a) ==> final(self).anchor_rva() != 0 && pointer_step(
                *read_ptr,
                base + final(self).anchor_rva(),
                a,
            ),
            old(self).anchor_rva() != 0 && r is None ==> pointer_step_fails(
                *read_ptr,
                base + old(self).anchor_rva(),
            ),
            final(self).anchor_rva() != old(self).anchor_rva() ==> r is Some && exists|
                hdr: Vec<u8>,
                pd: Vec<u8>,
                start: u64,
                batch: Vec<u8>,
            | anchor_found_via(read_mem, base, hdr, pd, start, batch, final(self).anchor_rva()),
    {
        proof {
            use_type_invariant(&*self);
        }
        let cached = self.anchor_rva;
        if cached != 0 {
            if let Some(anchor) = read_checked_ptr(base + cached, read_ptr) {
                return Some(anchor);
            }
        }
        let rva = match find_hardcoded_world_anchor(base, read_mem) {
            Some(rva) => rva,
            None => return None,
        };
        let ghost found = rva;
        proof {
            let (hdr, pd, start, batch) = choose|hdr: Vec<u8>, pd: Vec<u8>, start: u64, batch: Vec<u8>|
                anchor_found_via(read_mem, base, hdr, pd, start, batch, rva);
            assert(rva <= 0xFFFF_FFFF);
        }
        let anchor = match read_checked_ptr(base + rva, read_ptr) {
            Some(a) => a,
            None => return None,
        };
        self.anchor_rva = rva;
        Some(anchor)
    }
}

} // verus!
