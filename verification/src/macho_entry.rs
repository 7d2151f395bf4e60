//! The one step of goblin's Mach-O parse that can overflow: an image with
//! `LC_MAIN` gets its entry address as the first `__TEXT` segment's
//! `vmaddr - fileoff` plus the entry offset, in plain `u64` arithmetic.
//! Walking the load commands first tells the images on which that step
//! overflows, so that the parse is never asked to read them.

use vstd::prelude::*;
use crate::bytes::{le_u32_at, le_u64_at, read_u32};

verus! {

/// `MH_MAGIC`, read big-endian: a 32-bit image in big-endian byte order.
pub const MH_MAGIC: u32 = 0xFEED_FACE;

/// `MH_CIGAM`: a 32-bit image in little-endian byte order.
pub const MH_CIGAM: u32 = 0xCEFA_EDFE;

/// `MH_MAGIC_64`: a 64-bit image in big-endian byte order.
pub const MH_MAGIC_64: u32 = 0xFEED_FACF;

/// `MH_CIGAM_64`: a 64-bit image in little-endian byte order.
pub const MH_CIGAM_64: u32 = 0xCFFA_EDFE;

/// `FAT_MAGIC`, read big-endian: a multi-architecture file.
pub const FAT_MAGIC: u32 = 0xCAFE_BABE;

/// `LC_MAIN`.
pub const LC_MAIN: u32 = 0x8000_0028;

/// `LC_SEGMENT` (32-bit segment).
pub const LC_SEGMENT: u32 = 0x1;

/// `LC_SEGMENT_64`.
pub const LC_SEGMENT_64: u32 = 0x19;

/// The unsigned big-endian value of the four bytes of `buf` at `offset`.
pub open spec fn be_u32_at(buf: Seq<u8>, offset: int) -> int {
    buf[offset] as int * 0x100_0000 + buf[offset + 1] as int * 0x1_0000 + buf[offset + 2] as int
        * 0x100 + buf[offset + 3] as int
}

/// The unsigned big-endian value of the eight bytes of `buf` at `offset`.
pub open spec fn be_u64_at(buf: Seq<u8>, offset: int) -> int {
    be_u32_at(buf, offset) * 0x1_0000_0000 + be_u32_at(buf, offset + 4)
}

/// A `u32` field in the image's byte order.
pub open spec fn u32_in(buf: Seq<u8>, offset: int, little: bool) -> int {
    if little {
        le_u32_at(buf, offset)
    } else {
        be_u32_at(buf, offset)
    }
}

/// A `u64` field in the image's byte order.
pub open spec fn u64_in(buf: Seq<u8>, offset: int, little: bool) -> int {
    if little {
        le_u64_at(buf, offset)
    } else {
        be_u64_at(buf, offset)
    }
}

/// One of the four Mach-O image magics.
pub open spec fn is_mach_magic(m: int) -> bool {
    m == MH_MAGIC || m == MH_CIGAM || m == MH_MAGIC_64 || m == MH_CIGAM_64
}

/// The segment command at `p` is named `__TEXT` (goblin compares the first
/// seven bytes of the name with `__TEXT\0`).
pub open spec fn text_segname_at(buf: Seq<u8>, p: int) -> bool {
    &&& buf[p + 8] == 0x5Fu8
    &&& buf[p + 9] == 0x5Fu8
    &&& buf[p + 10] == 0x54u8
    &&& buf[p + 11] == 0x45u8
    &&& buf[p + 12] == 0x58u8
    &&& buf[p + 13] == 0x54u8
    &&& buf[p + 14] == 0u8
}

/// Walking `n` load commands from `p`, each `cmdsize` after the last: the
/// entry offset of the first `LC_MAIN` and the `(vmaddr, fileoff)` of the
/// first `__TEXT` segment, given those found so far; `None` when a field
/// this walk reads lies outside `buf` (the parse then fails on it too).
pub open spec fn entry_facts(
    buf: Seq<u8>,
    p: int,
    n: int,
    little: bool,
    main: Option<int>,
    text: Option<(int, int)>,
) -> Option<(Option<int>, Option<(int, int)>)>
    decreases n,
{
    if n <= 0 {
        Some((main, text))
    } else if p < 0 || p + 8 > buf.len() {
        None
    } else {
        let cmd = u32_in(buf, p, little);
        if cmd == LC_MAIN && main is None && p + 16 > buf.len() {
            None
        } else if text is None && ((cmd == LC_SEGMENT_64 && p + 48 > buf.len()) || (cmd == LC_SEGMENT
            && p + 36 > buf.len())) {
            None
        } else {
            let main2 = if cmd == LC_MAIN && main is None {
                Some(u64_in(buf, p + 8, little))
            } else {
                main
            };
            let text2 = if text is None && cmd == LC_SEGMENT_64 && text_segname_at(buf, p) {
                Some((u64_in(buf, p + 24, little), u64_in(buf, p + 40, little)))
            } else if text is None && cmd == LC_SEGMENT && text_segname_at(buf, p) {
                Some((u32_in(buf, p + 24, little), u32_in(buf, p + 32, little)))
            } else {
                text
            };
            entry_facts(buf, p + u32_in(buf, p + 4, little), n - 1, little, main2, text2)
        }
    }
}

/// The found entry offset and `__TEXT` segment, if both are there, give an
/// entry address within `u64`.
pub open spec fn facts_fit(facts: Option<(Option<int>, Option<(int, int)>)>) -> bool {
    match facts {
        Some((Some(e), Some((va, fo)))) => fo <= va && va - fo + e <= u64::MAX,
        _ => true,
    }
}

/// The image at `lo` in `buf` does not overflow goblin's entry-address
/// step: it is no Mach-O image, or its header or commands fail to read, or
/// it lacks `LC_MAIN` or `__TEXT`, or `vmaddr - fileoff + entryoff` of the
/// first ones stays within `u64`.
pub open spec fn entry_point_fits(buf: Seq<u8>, lo: int) -> bool {
    if lo < 0 || lo + 4 > buf.len() {
        true
    } else {
        let magic = be_u32_at(buf, lo);
        if !is_mach_magic(magic) {
            true
        } else {
            let little = magic == MH_CIGAM || magic == MH_CIGAM_64;
            let hs: int = if magic == MH_MAGIC_64 || magic == MH_CIGAM_64 {
                32
            } else {
                28
            };
            if lo + hs > buf.len() {
                true
            } else {
                let ncmds = u32_in(buf, lo + 16, little);
                let sizeofcmds = u32_in(buf, lo + 20, little);
                if ncmds > sizeofcmds / 8 || sizeofcmds > buf.len() {
                    true
                } else {
                    facts_fit(entry_facts(buf, lo + hs, ncmds, little, None, None))
                }
            }
        }
    }
}

/// Reads a big-endian `u32` at `offset`, which must lie inside `buf`.
pub fn read_be_u32(buf: &[u8], offset: usize) -> (r: u32)
    requires
        offset + 4 <= buf@.len(),
    ensures
        r as int == be_u32_at(buf@, offset as int),
{
    let b0 = buf[offset] as u32;
    let b1 = buf[offset + 1] as u32;
    let b2 = buf[offset + 2] as u32;
    let b3 = buf[offset + 3] as u32;
    b0 * 0x100_0000 + b1 * 0x1_0000 + b2 * 0x100 + b3
}

/// Reads a `u32` field in the image's byte order.
fn read_u32_in(buf: &[u8], offset: usize, little: bool) -> (r: u32)
    requires
        offset + 4 <= buf@.len(),
    ensures
        r as int == u32_in(buf@, offset as int, little),
{
    if little {
        read_u32(buf, offset).unwrap()
    } else {
        read_be_u32(buf, offset)
    }
}

/// Reads a `u64` field in the image's byte order.
fn read_u64_in(buf: &[u8], offset: usize, little: bool) -> (r: u64)
    requires
        offset + 8 <= buf@.len(),
    ensures
        r as int == u64_in(buf@, offset as int, little),
{
    let _ = buf.len();
    let a32 = read_u32_in(buf, offset, little);
    let b32 = read_u32_in(buf, offset + 4, little);
    let a = a32 as u64;
    let b = b32 as u64;
    assert(a <= 0xFFFF_FFFF && b <= 0xFFFF_FFFF);
    assert(b * 0x1_0000_0000 <= 0xFFFF_FFFF_0000_0000) by (nonlinear_arith)
        requires
            b <= 0xFFFF_FFFF,
    ;
    assert(a * 0x1_0000_0000 <= 0xFFFF_FFFF_0000_0000) by (nonlinear_arith)
        requires
            a <= 0xFFFF_FFFF,
    ;
    if little {
        a + b * 0x1_0000_0000
    } else {
        a * 0x1_0000_0000 + b
    }
}

/// Whether the image at `lo` in `buf` stays clear of goblin's
/// entry-address overflow (see `entry_point_fits`).
pub fn entry_point_fits_at(buf: &[u8], lo: usize) -> (r: bool)
    ensures
        r == entry_point_fits(buf@, lo as int),
{
    if lo > buf.len() || buf.len() - lo < 4 {
        return true;
    }
    let magic = read_be_u32(buf, lo);
    if !(magic == MH_MAGIC || magic == MH_CIGAM || magic == MH_MAGIC_64 || magic == MH_CIGAM_64) {
        return true;
    }
    let little = magic == MH_CIGAM || magic == MH_CIGAM_64;
    let hs: usize = if magic == MH_MAGIC_64 || magic == MH_CIGAM_64 {
        32
    } else {
        28
    };
    if buf.len() - lo < hs {
        return true;
    }
    let ncmds = read_u32_in(buf, lo + 16, little);
    let sizeofcmds = read_u32_in(buf, lo + 20, little);
    if ncmds > sizeofcmds / 8 || sizeofcmds as usize > buf.len() {
        return true;
    }
    let blen = buf.len();
    let len = blen as u128;
    let mut p: u128 = (lo + hs) as u128;
    let mut i: u32 = 0;
    let mut main: Option<u64> = None;
    let mut text: Option<(u64, u64)> = None;
    while i < ncmds
        invariant
            len == buf@.len(),
            buf@.len() <= usize::MAX,
            i <= ncmds,
            p <= (lo + hs) as int + i as int * 0xFFFF_FFFF,
            lo + hs <= buf@.len(),
            entry_point_fits(buf@, lo as int) == facts_fit(
                entry_facts(buf@, (lo + hs) as int, ncmds as int, little, None, None),
            ),
            entry_facts(buf@, (lo + hs) as int, ncmds as int, little, None, None) == entry_facts(
                buf@,
                p as int,
                ncmds - i,
                little,
                match main {
                    Some(e) => Some(e as int),
                    None => None,
                },
                match text {
                    Some(t) => Some((t.0 as int, t.1 as int)),
                    None => None,
                },
            ),
        decreases ncmds - i,
    {
        if p + 8 > len {
            return true;
        }
        let pu = p as usize;
        let cmd = read_u32_in(buf, pu, little);
        if cmd == LC_MAIN && main.is_none() {
            if p + 16 > len {
                return true;
            }
            main = Some(read_u64_in(buf, pu + 8, little));
        }
        if text.is_none() && cmd == LC_SEGMENT_64 {
            if p + 48 > len {
                return true;
            }
            if buf[pu + 8] == 0x5F && buf[pu + 9] == 0x5F && buf[pu + 10] == 0x54 && buf[pu + 11]
                == 0x45 && buf[pu + 12] == 0x58 && buf[pu + 13] == 0x54 && buf[pu + 14] == 0 {
                text = Some((read_u64_in(buf, pu + 24, little), read_u64_in(buf, pu + 40, little)));
            }
        } else if text.is_none() && cmd == LC_SEGMENT {
            if p + 36 > len {
                return true;
            }
            if buf[pu + 8] == 0x5F && buf[pu + 9] == 0x5F && buf[pu + 10] == 0x54 && buf[pu + 11]
                == 0x45 && buf[pu + 12] == 0x58 && buf[pu + 13] == 0x54 && buf[pu + 14] == 0 {
                text = Some(
                    (read_u32_in(buf, pu + 24, little) as u64, read_u32_in(buf, pu + 32, little) as u64),
                );
            }
        }
        let size = read_u32_in(buf, pu + 4, little);
        p = p + size as u128;
        i = i + 1;
    }
    match (main, text) {
        (Some(e), Some((va, fo))) => fo <= va && va - fo <= u64::MAX - e,
        _ => true,
    }
}

} // verus!
