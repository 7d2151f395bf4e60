//! Finding the target process in a `SystemProcessInformation` snapshot.

use vstd::prelude::*;
use crate::abi::{ascii_to_utf16, lemma_target_name_bytes, target_name_units, TARGET_PROCESS_NAME};
use crate::bytes::{le_u32_at, le_u64_at, read_u32, read_u64};
use crate::names::{ends_with_ignore_ascii_case, path_ends_with_ignore_ascii_case};

verus! {

/// `SYSTEM_PROCESS_INFORMATION.ImageName.Length` (bytes of the UTF-16 name).
pub const SPI_IMAGE_NAME_LENGTH: usize = 0x38;

/// `SYSTEM_PROCESS_INFORMATION.ImageName.Buffer`.
pub const SPI_IMAGE_NAME_BUFFER: usize = 0x40;

/// `SYSTEM_PROCESS_INFORMATION.UniqueProcessId`.
pub const SPI_UNIQUE_PROCESS_ID: usize = 0x50;

/// Bytes a record must have in the buffer to be read: up to the end of
/// `UniqueProcessId`.
pub const SPI_MIN_RECORD_SIZE: usize = 0x58;

/// Whether `path` names the target image: its last component (what follows
/// the last `\`, or the whole path) is the target name, ignoring ASCII case.
/// A longer name that merely ends with the target name does not match.
pub open spec fn names_target_image(path: Seq<u16>) -> bool {
    &&& ends_with_ignore_ascii_case(path, target_name_units())
    &&& (path.len() == target_name_units().len() || path[path.len() - target_name_units().len() - 1]
        == 0x5Cu16)
}

/// Whether `path` names the target process: its last component is the
/// target name, ignoring ASCII case.
pub fn unicode_path_ends_with_target(path: &[u16]) -> (r: bool)
    ensures
        r == names_target_image(path@),
{
    proof {
        lemma_target_name_bytes();
    }
    let units = ascii_to_utf16(TARGET_PROCESS_NAME, 26);
    let name = &units.as_slice()[0..25];
    assert(name@ =~= target_name_units());
    if !path_ends_with_ignore_ascii_case(path, name) {
        return false;
    }
    path.len() == 25 || path[path.len() - 26] == 0x5C
}

/// Offsets of the records visited when walking the snapshot from `off`: a
/// record is visited while it fits in the buffer, and the walk follows
/// `NextEntryOffset` until it is 0 or leads past the buffer.
pub open spec fn records_from(buf: Seq<u8>, off: int) -> Seq<int>
    decreases buf.len() - off,
{
    if off < 0 || off + SPI_MIN_RECORD_SIZE > buf.len() {
        Seq::empty()
    } else {
        let next = le_u32_at(buf, off);
        if next == 0 || off + next + SPI_MIN_RECORD_SIZE > buf.len() {
            seq![off]
        } else {
            seq![off].add(records_from(buf, off + next))
        }
    }
}

/// The records of a snapshot, in walk order.
pub open spec fn snapshot_records(buf: Seq<u8>) -> Seq<int> {
    records_from(buf, 0)
}

/// The image-name buffer pointer of the record at `off`.
pub open spec fn record_name_ptr(buf: Seq<u8>, off: int) -> int {
    le_u64_at(buf, off + SPI_IMAGE_NAME_BUFFER)
}

/// The image-name length of the record at `off`, in UTF-16 units.
pub open spec fn record_name_units(buf: Seq<u8>, off: int) -> int {
    (buf[off + SPI_IMAGE_NAME_LENGTH] as int + buf[off + SPI_IMAGE_NAME_LENGTH + 1] as int * 0x100)
        / 2
}

/// A record's name is read as half as many UTF-16 units as its
/// `ImageName.Length` counts bytes (the little-endian `u16` at `0x38`).
pub proof fn law_name_units_are_half_the_byte_length(buf: Seq<u8>, off: int)
    ensures
        2 * record_name_units(buf, off) <= buf[off + 0x38] as int + buf[off + 0x39] as int * 0x100,
        buf[off + 0x38] as int + buf[off + 0x39] as int * 0x100 <= 2 * record_name_units(buf, off) + 1,
{
}

/// The record at `off` is reported as the target by this outcome of reading
/// its name.
pub open spec fn name_outcome_matches(out: Option<Vec<u16>>) -> bool {
    out matches Some(chars) && names_target_image(chars@)
}

/// The record at `off` can be passed over: it has no name, or reading its
/// name may give an outcome that is not the target.
pub open spec fn record_passed_over<F: Fn(u64, usize) -> Option<Vec<u16>>>(
    read_chars: F,
    buf: Seq<u8>,
    off: int,
) -> bool {
    record_name_ptr(buf, off) == 0 || exists|out: Option<Vec<u16>>|
        read_chars.ensures(
            (record_name_ptr(buf, off) as u64, record_name_units(buf, off) as usize),
            out,
        ) && !name_outcome_matches(out)
}

/// The record at `off` is the target under an outcome of reading its name.
pub open spec fn record_matched<F: Fn(u64, usize) -> Option<Vec<u16>>>(
    read_chars: F,
    buf: Seq<u8>,
    off: int,
) -> bool {
    record_name_ptr(buf, off) != 0 && exists|out: Option<Vec<u16>>|
        read_chars.ensures(
            (record_name_ptr(buf, off) as u64, record_name_units(buf, off) as usize),
            out,
        ) && name_outcome_matches(out)
}

/// Lemma: each visited record fits in the buffer and records advance.
pub proof fn lemma_records_fit(buf: Seq<u8>, off: int)
    ensures
        forall|k: int|
            0 <= k < records_from(buf, off).len() ==> off <= #[trigger] records_from(buf, off)[k]
                && records_from(buf, off)[k] + SPI_MIN_RECORD_SIZE <= buf.len(),
    decreases buf.len() - off,
{
    if off < 0 || off + SPI_MIN_RECORD_SIZE > buf.len() {
    } else {
        let next = le_u32_at(buf, off);
        if next == 0 || off + next + SPI_MIN_RECORD_SIZE > buf.len() {
        } else {
            lemma_records_fit(buf, off + next);
            let rest = records_from(buf, off + next);
            assert(records_from(buf, off) == seq![off].add(rest));
            assert forall|k: int| 0 <= k < records_from(buf, off).len() implies off
                <= #[trigger] records_from(buf, off)[k] && records_from(buf, off)[k]
                + SPI_MIN_RECORD_SIZE <= buf.len() by {
                if k > 0 {
                    assert(records_from(buf, off)[k] == rest[k - 1]);
                }
            }
        }
    }
}

/// Walks a process snapshot and returns the process id of the first record
/// whose image name ends with the target name (ignoring ASCII case). Names
/// are read through `read_chars(buffer, units)`; a record with a null name
/// buffer is skipped.
pub fn find_target_pid(buf: &[u8], read_chars: impl Fn(u64, usize) -> Option<Vec<u16>>) -> (r:
    Option<u64>)
    requires
        forall|p: u64, n: usize| read_chars.requires((p, n)),
    ensures
        r matches Some(pid) ==> exists|k: int|
            0 <= k < snapshot_records(buf@).len() && pid == le_u64_at(
                buf@,
                snapshot_records(buf@)[k] + SPI_UNIQUE_PROCESS_ID,
            ) && record_matched(read_chars, buf@, snapshot_records(buf@)[k]) && forall|m: int|
                0 <= m < k ==> record_passed_over(read_chars, buf@, snapshot_records(buf@)[m]),
        r is None ==> forall|m: int|
            0 <= m < snapshot_records(buf@).len() ==> record_passed_over(
                read_chars,
                buf@,
                snapshot_records(buf@)[m],
            ),
{
    let ghost all = snapshot_records(buf@);
    let blen = buf.len();
    let mut off: usize = 0;
    let ghost mut k: int = 0;
    proof {
        lemma_records_fit(buf@, 0);
    }
    loop
        invariant_except_break
            all.subrange(k, all.len() as int) == records_from(buf@, off as int),
        invariant
            forall|p: u64, n: usize| read_chars.requires((p, n)),
            all == snapshot_records(buf@),
            0 <= k <= all.len(),
            forall|m: int| 0 <= m < k ==> record_passed_over(read_chars, buf@, all[m]),
            blen == buf@.len(),
        ensures
            forall|m: int| 0 <= m < all.len() ==> record_passed_over(read_chars, buf@, all[m]),
        decreases buf@.len() - off,
    {
        if off > buf.len() || buf.len() - off < SPI_MIN_RECORD_SIZE {
            assert(records_from(buf@, off as int) =~= Seq::<int>::empty());
            assert(k == all.len());
            break;
        }
        let ghost rest = records_from(buf@, off as int);
        assert(rest.len() >= 1 && rest[0] == off);
        assert(all.subrange(k, all.len() as int)[0] == all[k]);
        assert(all[k] == off as int);
        let next = read_u32(buf, off).unwrap();
        let len_lo = buf[off + SPI_IMAGE_NAME_LENGTH] as usize;
        let len_hi = buf[off + SPI_IMAGE_NAME_LENGTH + 1] as usize;
        let units = (len_lo + len_hi * 0x100) / 2;
        let ptr = read_u64(buf, off + SPI_IMAGE_NAME_BUFFER).unwrap();
        if ptr != 0 {
            let chars = read_chars(ptr, units);
            let hit = match &chars {
                Some(c) => unicode_path_ends_with_target(c.as_slice()),
                None => false,
            };
            if hit {
                assert(name_outcome_matches(chars));
                let pid = read_u64(buf, off + SPI_UNIQUE_PROCESS_ID).unwrap();
                assert(record_matched(read_chars, buf@, all[k]));
                return Some(pid);
            }
            assert(!name_outcome_matches(chars));
            assert(record_passed_over(read_chars, buf@, all[k]));
        }
        proof {
            k = k + 1;
        }
        if next == 0 || buf.len() - off - SPI_MIN_RECORD_SIZE < next as usize {
            assert(k == all.len());
            break;
        }
        assert(all.subrange(k, all.len() as int) =~= rest.subrange(1, rest.len() as int));
        off = off + next as usize;
    }
    None
}

} // verus!
