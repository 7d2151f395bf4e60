//! The driver's user-mode ABI: device names, the one IOCTL code, the hardcoded
//! process names, and the compile-time name conversions built from them.

use vstd::prelude::*;
use vstd::string::StringSliceAdditionalSpecFns;

verus! {

/// Win32 path of the driver's device.
pub const DEVICE_NAME: &'static str = r"\\.\WumaDisplayService";

/// NT symbolic link created for the device.
pub const DEVICE_SYMBOLIC_LINK_NAME: &'static str = r"\DosDevices\WumaDisplayService";

/// The only process whose memory the driver reads.
pub const TARGET_PROCESS_NAME: &'static str = "Client-Win64-Shipping.exe";

/// The client binary name checked when the device is opened (friction
/// against incidental use, not an identity check).
pub const APP_PROCESS_NAME: &'static str = "wuma-tracker.exe";

/// `CTL_CODE(FILE_DEVICE_UNKNOWN, function, METHOD_BUFFERED, FILE_ANY_ACCESS)`.
pub open spec fn spec_ctl(function: u32) -> u32 {
    (0x22u32 << 16u32) | (function << 2u32)
}

/// Builds a buffered, any-access IOCTL code of device type 0x22.
pub fn ctl(function: u32) -> (r: u32)
    ensures
        r == spec_ctl(function),
        function < 0x4000 ==> r == 0x22_0000 + 4 * function,
{
    let r = (0x22u32 << 16u32) | (function << 2u32);
    assert(function < 0x4000 ==> (0x22u32 << 16u32) | (function << 2u32) == 0x22_0000u32 + 4
        * function) by (bit_vector);
    r
}

/// The single IOCTL the driver serves: `ctl(0x802)`.
pub const IOCTL_GET_LOCATION: u32 = 0x0022_2008;

/// `IOCTL_GET_LOCATION` is the code `ctl` builds for function 0x802.
pub proof fn lemma_ioctl_get_location_code()
    ensures
        spec_ctl(0x802) == IOCTL_GET_LOCATION,
{
    assert((0x22u32 << 16u32) | (0x802u32 << 2u32) == 0x0022_2008u32) by (bit_vector);
}

/// The request of `IOCTL_GET_LOCATION` carries no payload.
pub struct GetLocationRequest;

/// Bytes of the fixed `IOCTL_GET_LOCATION` response: six `f32` fields, the
/// `stage` byte and three padding bytes.
pub const GET_LOCATION_RESPONSE_SIZE: usize = 28;

/// The first `n` bytes of `s`.
pub fn ascii_prefix(s: &str, n: usize) -> (r: Vec<u8>)
    requires
        n <= s.spec_bytes().len(),
    ensures
        r@ == s.spec_bytes().take(n as int),
{
    let bytes = s.as_bytes();
    let mut out: Vec<u8> = Vec::new();
    let mut i: usize = 0;
    while i < n
        invariant
            bytes@ == s.spec_bytes(),
            n <= bytes@.len(),
            i <= n,
            out@ == bytes@.take(i as int),
        decreases n - i,
    {
        out.push(bytes[i]);
        i = i + 1;
        assert(out@ =~= bytes@.take(i as int));
    }
    out
}

/// Widens the bytes of `s` to UTF-16 units, zero-padded to `n` units.
pub fn ascii_to_utf16(s: &str, n: usize) -> (r: Vec<u16>)
    requires
        s.spec_bytes().len() <= n,
    ensures
        r@.len() == n,
        forall|i: int| 0 <= i < s.spec_bytes().len() ==> r@[i] == s.spec_bytes()[i] as u16,
        forall|i: int| s.spec_bytes().len() <= i < n ==> r@[i] == 0,
{
    let bytes = s.as_bytes();
    let mut out: Vec<u16> = Vec::new();
    let mut i: usize = 0;
    while i < n
        invariant
            bytes@ == s.spec_bytes(),
            bytes@.len() <= n,
            i <= n,
            out@.len() == i,
            forall|k: int| 0 <= k < i && k < bytes@.len() ==> out@[k] == bytes@[k] as u16,
            forall|k: int| bytes@.len() <= k < i ==> out@[k] == 0,
        decreases n - i,
    {
        if i < bytes.len() {
            out.push(bytes[i] as u16);
        } else {
            out.push(0);
        }
        i = i + 1;
    }
    out
}


/// The target name as it is stored in the process list's UTF-16 strings,
/// without a terminator.
pub open spec fn target_name_units() -> Seq<u16> {
    TARGET_PROCESS_NAME.spec_bytes().map_values(|b: u8| b as u16)
}

/// The target name is 25 ASCII bytes.
pub proof fn lemma_target_name_bytes()
    ensures
        TARGET_PROCESS_NAME.spec_bytes().len() == 25,
        TARGET_PROCESS_NAME.spec_bytes() =~= seq![
            0x43u8, 0x6Cu8, 0x69u8, 0x65u8, 0x6Eu8, 0x74u8, 0x2Du8, 0x57u8, 0x69u8, 0x6Eu8,
            0x36u8, 0x34u8, 0x2Du8, 0x53u8, 0x68u8, 0x69u8, 0x70u8, 0x70u8, 0x69u8, 0x6Eu8,
            0x67u8, 0x2Eu8, 0x65u8, 0x78u8, 0x65u8,
        ],
{
    reveal_strlit("Client-Win64-Shipping.exe");
    assert(vstd::string::is_ascii(TARGET_PROCESS_NAME));
    vstd::string::is_ascii_spec_bytes(TARGET_PROCESS_NAME);
}


/// The client name is 16 ASCII bytes.
pub proof fn lemma_app_name_bytes()
    ensures
        APP_PROCESS_NAME.spec_bytes() =~= seq![
            0x77u8, 0x75u8, 0x6Du8, 0x61u8, 0x2Du8, 0x74u8, 0x72u8, 0x61u8, 0x63u8, 0x6Bu8,
            0x65u8, 0x72u8, 0x2Eu8, 0x65u8, 0x78u8, 0x65u8,
        ],
{
    reveal_strlit("wuma-tracker.exe");
    assert(vstd::string::is_ascii(APP_PROCESS_NAME));
    vstd::string::is_ascii_spec_bytes(APP_PROCESS_NAME);
}

/// `Length` and `MaximumLength` of a `UNICODE_STRING` over a NUL-terminated
/// buffer of `units` UTF-16 units: the bytes without, and with, the
/// terminator.
pub fn unicode_string_lengths(units: usize) -> (r: (u16, u16))
    requires
        1 <= units <= 32767,
    ensures
        r.0 == (units - 1) * 2,
        r.1 == units * 2,
{
    let len = ((units - 1) * 2) as u16;
    (len, len + 2)
}

} // verus!
