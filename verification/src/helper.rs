//! The helper service's pipe protocol: a four-byte request, answered with
//! one location reply.

use vstd::prelude::*;
use vstd::string::*;
use crate::bytes::{le_u32_at, read_u32};
use crate::device::{STAGE_DRIVER_UNAVAILABLE, STAGE_TARGET_MISSING};

verus! {

/// The helper's named pipe.
pub const PIPE_NAME: &'static str = r"\\.\pipe\WumaTrackerHelper";

/// The request code asking for the player's location.
pub const REQ_GET_LOCATION: u32 = 1;

/// Bytes of a request.
pub const REQUEST_SIZE: usize = 4;

/// Whether a request (its little-endian code) asks for the location.
pub fn is_location_request(req: &[u8]) -> (r: bool)
    requires
        req@.len() == REQUEST_SIZE,
    ensures
        r == (le_u32_at(req@, 0) == REQ_GET_LOCATION),
{
    match read_u32(req, 0) {
        Some(opcode) => opcode == REQ_GET_LOCATION,
        None => false,
    }
}

/// The stage the helper answers with: the driver could not be opened, or the
/// driver wrote nothing (no target process), or else what the driver said.
pub open spec fn helper_stage(driver_open: bool, returned: u32, driver_stage: u8) -> u8 {
    if !driver_open {
        STAGE_DRIVER_UNAVAILABLE
    } else if returned == 0 {
        STAGE_TARGET_MISSING
    } else {
        driver_stage
    }
}

/// The stage byte of the helper's reply.
pub fn helper_reply_stage(driver_open: bool, returned: u32, driver_stage: u8) -> (r: u8)
    ensures
        r == helper_stage(driver_open, returned, driver_stage),
{
    if !driver_open {
        STAGE_DRIVER_UNAVAILABLE
    } else if returned == 0 {
        STAGE_TARGET_MISSING
    } else {
        driver_stage
    }
}

/// The pipe's security descriptor: read and write for administrators and
/// for the user with SID `user_sid`, nothing for anyone else.
pub fn pipe_sddl(user_sid: &str) -> (r: String)
    ensures
        r@ == "D:P(A;;GRGW;;;BA)(A;;GRGW;;;"@ + user_sid@ + ")"@,
{
    let mut s = String::from_str("D:P(A;;GRGW;;;BA)(A;;GRGW;;;");
    s.append(user_sid);
    s.append(")");
    s
}

} // verus!
