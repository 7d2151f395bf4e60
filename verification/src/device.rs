//! The driver's dispatch decisions: who may hold the device open, which
//! IOCTLs are served on a handle, and what a location request is answered.

use vstd::prelude::*;
use crate::abi::{GET_LOCATION_RESPONSE_SIZE, IOCTL_GET_LOCATION};

verus! {

/// `STATUS_SUCCESS`.
pub const STATUS_SUCCESS: i32 = 0;

/// `STATUS_UNSUCCESSFUL` (0xC0000001).
pub const STATUS_UNSUCCESSFUL: i32 = -1073741823;

/// `STATUS_ACCESS_DENIED` (0xC0000022).
pub const STATUS_ACCESS_DENIED: i32 = -1073741790;

/// `STATUS_BUFFER_TOO_SMALL` (0xC0000023).
pub const STATUS_BUFFER_TOO_SMALL: i32 = -1073741789;

/// `STATUS_INVALID_PARAMETER` (0xC000000D).
pub const STATUS_INVALID_PARAMETER: i32 = -1073741811;

/// `STATUS_NOT_FOUND` (0xC0000225).
pub const STATUS_NOT_FOUND: i32 = -1073741275;

/// `stage` value of a response whose target process was not found.
pub const STAGE_TARGET_MISSING: u8 = 0xFE;

/// `stage` value the clients use when the driver could not be reached.
pub const STAGE_DRIVER_UNAVAILABLE: u8 = 0xFF;

/// Status of an open request, and the owner it leaves: an open is granted
/// only to the client binary, only while nobody holds the device, and only
/// with a file object to bind the opener's process id to.
pub open spec fn create_outcome(owner: u64, caller_is_app: bool, pid: u64, has_file_object: bool) -> (
    i32,
    u64,
) {
    if caller_is_app && owner == 0 && has_file_object {
        (STATUS_SUCCESS, pid)
    } else {
        (STATUS_ACCESS_DENIED, owner)
    }
}

/// A handle may issue IOCTLs only from the nonzero process id bound to it.
pub open spec fn ioctl_authorized(bound_pid: u64, current_pid: u64) -> bool {
    bound_pid != 0 && bound_pid == current_pid
}

/// The single-instance owner of the device: the process id that holds it
/// open, or 0.
pub struct DeviceOwner {
    owner_pid: u64,
}

impl DeviceOwner {
    /// The process id that holds the device open, or 0.
    pub closed spec fn owner(&self) -> u64 {
        self.owner_pid
    }

    /// No process holds the device.
    pub fn new() -> (r: Self)
        ensures
            r.owner() == 0,
    {
        DeviceOwner { owner_pid: 0 }
    }

    /// The process id that holds the device open, or 0.
    pub fn owner_pid(&self) -> (r: u64)
        ensures
            r == self.owner(),
    {
        self.owner_pid
    }

    /// `IRP_MJ_CREATE`: decides an open by process `pid`, recording it as the
    /// owner when granted. The returned status completes the request; on
    /// success the caller binds `pid` to the file object.
    pub fn on_create(&mut self, caller_is_app: bool, pid: u64, has_file_object: bool) -> (r: i32)
        ensures
            (r, final(self).owner()) == create_outcome(
                old(self).owner(),
                caller_is_app,
                pid,
                has_file_object,
            ),
    {
        if !caller_is_app {
            return STATUS_ACCESS_DENIED;
        }
        if self.owner_pid != 0 {
            return STATUS_ACCESS_DENIED;
        }
        self.owner_pid = pid;
        if !has_file_object {
            self.owner_pid = 0;
            return STATUS_ACCESS_DENIED;
        }
        STATUS_SUCCESS
    }

    /// `IRP_MJ_CLOSE`: releases the device.
    pub fn on_close(&mut self) -> (r: i32)
        ensures
            final(self).owner() == 0,
            r == STATUS_SUCCESS,
    {
        self.owner_pid = 0;
        STATUS_SUCCESS
    }
}

/// While a process holds the device, every other open is refused and leaves
/// the owner in place.
pub proof fn law_single_instance(owner: u64, caller_is_app: bool, pid: u64, has_file_object: bool)
    requires
        owner != 0,
    ensures
        create_outcome(owner, caller_is_app, pid, has_file_object) == (STATUS_ACCESS_DENIED, owner),
{
}

/// After a close, the client can open the device again and becomes its
/// owner; on that handle only its own (nonzero) process id may issue IOCTLs.
pub proof fn law_reopen_after_close(pid: u64, other: u64)
    ensures
        create_outcome(0, true, pid, true) == (STATUS_SUCCESS, pid),
        ioctl_authorized(pid, other) <==> (pid != 0 && other == pid),
{
}

/// Where an IOCTL goes.
#[derive(Clone, Copy, Debug, PartialEq, Eq)]
pub enum IoctlRoute {
    /// The handle is not bound to the calling process.
    Denied,
    /// Served by the location request.
    GetLocation,
    /// Any other code.
    Unsupported,
}

/// The route of an IOCTL with `code` on a handle bound to `bound_pid`, issued
/// by `current_pid`.
pub open spec fn spec_route_ioctl(bound_pid: u64, current_pid: u64, code: u32) -> IoctlRoute {
    if !ioctl_authorized(bound_pid, current_pid) {
        IoctlRoute::Denied
    } else if code == IOCTL_GET_LOCATION {
        IoctlRoute::GetLocation
    } else {
        IoctlRoute::Unsupported
    }
}

/// Routes an IOCTL: handle/PID binding first, then the code.
pub fn route_ioctl(bound_pid: u64, current_pid: u64, code: u32) -> (r: IoctlRoute)
    ensures
        r == spec_route_ioctl(bound_pid, current_pid, code),
{
    if bound_pid == 0 || bound_pid != current_pid {
        IoctlRoute::Denied
    } else if code == IOCTL_GET_LOCATION {
        IoctlRoute::GetLocation
    } else {
        IoctlRoute::Unsupported
    }
}

/// Completion status and byte count of an IOCTL refused by `route_ioctl`.
pub fn refused_ioctl_completion(route: IoctlRoute) -> (r: (i32, usize))
    ensures
        route == IoctlRoute::Denied ==> r == (STATUS_ACCESS_DENIED, 0usize),
        route != IoctlRoute::Denied ==> r == (STATUS_INVALID_PARAMETER, 0usize),
{
    match route {
        IoctlRoute::Denied => (STATUS_ACCESS_DENIED, 0),
        _ => (STATUS_INVALID_PARAMETER, 0),
    }
}

/// Checks the buffers of a location request: it takes no input, and needs an
/// output buffer of at least the response size. `Err` carries the
/// completion of a refused request: its status and the 0 bytes returned.
pub fn admit_location_request(input_len: usize, output_len: usize, buffer_is_null: bool) -> (r:
    Result<(), (i32, usize)>)
    ensures
        input_len != 0 ==> r == Err::<(), (i32, usize)>((STATUS_INVALID_PARAMETER, 0usize)),
        input_len == 0 && (output_len < GET_LOCATION_RESPONSE_SIZE || buffer_is_null) ==> r == Err::<
            (),
            (i32, usize),
        >((STATUS_BUFFER_TOO_SMALL, 0usize)),
        input_len == 0 && output_len >= GET_LOCATION_RESPONSE_SIZE && !buffer_is_null ==> r is Ok,
{
    if input_len != 0 {
        return Err((STATUS_INVALID_PARAMETER, 0));
    }
    if output_len < GET_LOCATION_RESPONSE_SIZE || buffer_is_null {
        return Err((STATUS_BUFFER_TOO_SMALL, 0));
    }
    Ok(())
}

/// The `stage` byte of an admitted location request: target missing, the
/// chain's failure stage, or 0 on success. A request whose target was found
/// completes with success and a full response, so a chain failure's stage
/// reaches the caller in the response.
pub fn location_reply_stage(target_found: bool, read: Result<(), u8>) -> (r: u8)
    ensures
        !target_found ==> r == STAGE_TARGET_MISSING,
        target_found ==> r == (match read {
            Ok(()) => 0u8,
            Err(stage) => stage,
        }),
{
    if !target_found {
        return STAGE_TARGET_MISSING;
    }
    match read {
        Ok(()) => 0,
        Err(stage) => stage,
    }
}

/// Completion status and byte count of an admitted location request: with
/// the target process absent it fails with `STATUS_NOT_FOUND` and returns no
/// bytes (the helper then reports `STAGE_TARGET_MISSING`); otherwise it
/// succeeds with a full response.
pub fn location_reply_completion(target_found: bool) -> (r: (i32, usize))
    ensures
        !target_found ==> r == (STATUS_NOT_FOUND, 0usize),
        target_found ==> r == (STATUS_SUCCESS, GET_LOCATION_RESPONSE_SIZE),
{
    if target_found {
        (STATUS_SUCCESS, GET_LOCATION_RESPONSE_SIZE)
    } else {
        (STATUS_NOT_FOUND, 0)
    }
}

} // verus!
