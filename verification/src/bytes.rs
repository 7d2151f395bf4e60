//! Little-endian field reads out of byte buffers.

use vstd::prelude::*;

verus! {

/// The unsigned little-endian value of the four bytes of `buf` at `offset`.
pub open spec fn le_u32_at(buf: Seq<u8>, offset: int) -> int {
    buf[offset] as int + buf[offset + 1] as int * 0x100 + buf[offset + 2] as int * 0x1_0000
        + buf[offset + 3] as int * 0x100_0000
}

/// The two's-complement reading of an unsigned 32-bit value.
pub open spec fn as_signed32(v: int) -> int {
    if v < 0x8000_0000 { v } else { v - 0x1_0000_0000 }
}

/// Whether four bytes starting at `offset` lie inside a buffer of `len` bytes.
pub open spec fn fits4(len: int, offset: int) -> bool {
    0 <= offset && offset + 4 <= len
}

/// Reads a little-endian `u32` at `offset`; `None` when the four bytes do not
/// lie inside `buf` (including when `offset + 4` overflows).
pub fn read_u32(buf: &[u8], offset: usize) -> (r: Option<u32>)
    ensures
        r is Some <==> fits4(buf@.len() as int, offset as int),
        r matches Some(v) ==> v as int == le_u32_at(buf@, offset as int),
{
    if offset > buf.len() || buf.len() - offset < 4 {
        return None;
    }
    let b0 = buf[offset] as u32;
    let b1 = buf[offset + 1] as u32;
    let b2 = buf[offset + 2] as u32;
    let b3 = buf[offset + 3] as u32;
    Some(b0 + b1 * 0x100 + b2 * 0x1_0000 + b3 * 0x100_0000)
}

/// Reads a little-endian `i32` at `offset`; `None` exactly when `read_u32` is.
pub fn read_i32(buf: &[u8], offset: usize) -> (r: Option<i32>)
    ensures
        r is Some <==> fits4(buf@.len() as int, offset as int),
        r matches Some(v) ==> v as int == as_signed32(le_u32_at(buf@, offset as int)),
{
    match read_u32(buf, offset) {
        None => None,
        Some(u) => {
            if u < 0x8000_0000 {
                Some(u as i32)
            } else {
                let low: u32 = u - 0x8000_0000;
                Some((low as i32) - 0x4000_0000 - 0x4000_0000)
            }
        },
    }
}


/// The unsigned little-endian value of the eight bytes of `buf` at `offset`.
pub open spec fn le_u64_at(buf: Seq<u8>, offset: int) -> int {
    le_u32_at(buf, offset) + le_u32_at(buf, offset + 4) * 0x1_0000_0000
}

/// Reads a little-endian `u64` at `offset`; `None` when the eight bytes do
/// not lie inside `buf`.
pub fn read_u64(buf: &[u8], offset: usize) -> (r: Option<u64>)
    ensures
        r is Some <==> 0 <= offset && offset + 8 <= buf@.len(),
        r matches Some(v) ==> v as int == le_u64_at(buf@, offset as int),
{
    if offset > buf.len() || buf.len() - offset < 8 {
        return None;
    }
    let lo = read_u32(buf, offset).unwrap() as u64;
    let hi = read_u32(buf, offset + 4).unwrap() as u64;
    Some(lo + hi * 0x1_0000_0000)
}

} // verus!
