//! The user-mode GWorld scan of the Windows client's process reader: the PE
//! fields read one by one through `ReadProcessMemory`, the `.pdata` batches,
//! the scan cache keyed by executable, and where `GWorld` is read from.

use vstd::prelude::*;
use vstd::string::*;
use crate::errors::{display_text, NativeError};
use crate::offsets::WuwaOffset;
use crate::pe_scan::{
    batch_hits, batch_misses, batch_read_at, batches_miss, batches_miss_until, lemma_miss_until_extend, first_anchor, lemma_batch_end, lemma_first_anchor_sound, plan_batch, scan_world_anchor, sort_by_begin, sorted_by_begin,
    usable_function_ranges, usable_range, usable_ranges, BatchRules, FunctionRange, PATTERN_LEN,
    raw_function_ranges,
};
use crate::text::{decimal, decimal_string, hex_upper, hex_upper_string};

verus! {

/// Largest batch of adjacent functions read at once by the user-mode scan.
pub const USER_MAX_BATCH: u64 = 262144;

/// The PE fields the user-mode scan reads.
#[derive(Clone, Copy, Debug, PartialEq, Eq)]
pub struct PeExceptionDir {
    /// `FileHeader.TimeDateStamp`.
    pub timestamp: u32,
    /// `OptionalHeader.SizeOfImage`.
    pub size_of_image: u32,
    /// RVA of the exception directory.
    pub pdata_rva: u32,
    /// Size of the exception directory.
    pub pdata_size: u32,
}

/// The header reads behind `d`: `e_lfanew` at `base + 0x3C`, then
/// `TimeDateStamp` at `+8`, `SizeOfImage` at `+80` and the exception
/// directory at `+160` / `+164` from the PE header.
pub open spec fn pe_dir_read<F: Fn(u64) -> Option<u32>>(read_u32: F, base: u64, d: PeExceptionDir) -> bool {
    exists|e: u32|
        #![trigger read_u32.ensures(((base + 0x3C) as u64,), Some(e))]
        read_u32.ensures(((base + 0x3C) as u64,), Some(e)) && read_u32.ensures(
            ((base + e + 8) as u64,),
            Some(d.timestamp),
        ) && read_u32.ensures(((base + e + 80) as u64,), Some(d.size_of_image)) && read_u32.ensures(
            ((base + e + 160) as u64,),
            Some(d.pdata_rva),
        ) && read_u32.ensures(((base + e + 164) as u64,), Some(d.pdata_size))
}

/// The texts a failed header read reports.
pub open spec fn pe_dir_error_text(m: Seq<char>) -> bool {
    ||| m == "e_lfanew 읽기 실패"@
    ||| m == "TimeDateStamp 읽기 실패"@
    ||| m == "SizeOfImage 읽기 실패"@
    ||| m == ".pdata RVA 읽기 실패"@
    ||| m == ".pdata size 읽기 실패"@
}

/// Offset from the PE header of the `k`-th field read after `e_lfanew`:
/// `TimeDateStamp`, `SizeOfImage`, then the exception directory's RVA and
/// size.
pub open spec fn pe_field_offset(k: int) -> int {
    if k == 1 {
        8
    } else if k == 2 {
        80
    } else if k == 3 {
        160
    } else {
        164
    }
}

/// The error text when the `k`-th header read (0 for `e_lfanew`) fails.
pub open spec fn pe_field_text(k: int) -> Seq<char> {
    if k == 0 {
        "e_lfanew 읽기 실패"@
    } else if k == 1 {
        "TimeDateStamp 읽기 실패"@
    } else if k == 2 {
        "SizeOfImage 읽기 실패"@
    } else if k == 3 {
        ".pdata RVA 읽기 실패"@
    } else {
        ".pdata size 읽기 실패"@
    }
}

/// The `k`-th header read came back empty: `e_lfanew` itself, or a field
/// behind the `e_lfanew` that was read.
pub open spec fn pe_field_failed<F: Fn(u64) -> Option<u32>>(read_u32: F, base: u64, k: int) -> bool {
    if k == 0 {
        read_u32.ensures(((base + 0x3C) as u64,), None::<u32>)
    } else {
        exists|e: u32|
            #![trigger read_u32.ensures(((base + 0x3C) as u64,), Some(e))]
            read_u32.ensures(((base + 0x3C) as u64,), Some(e)) && read_u32.ensures(
                ((base + e + pe_field_offset(k)) as u64,),
                None::<u32>,
            )
    }
}

/// Reads the PE exception directory of the module at `base`, one `u32` at a
/// time; the first read that fails names the error.
pub fn read_pe_exception_dir(base: u64, read_u32: &impl Fn(u64) -> Option<u32>) -> (r: Result<
    PeExceptionDir,
    String,
>)
    requires
        base <= 0x7FFF_FFFF_FFFF,
        forall|a: u64| read_u32.requires((a,)),
    ensures
        r matches Ok(d) ==> pe_dir_read(*read_u32, base, d),
        r matches Err(m) ==> exists|k: int|
            0 <= k <= 4 && m@ == pe_field_text(k) && #[trigger] pe_field_failed(*read_u32, base, k),
{
    let e = match read_u32(base + 0x3C) {
        Some(e) => e,
        None => {
            assert(pe_field_failed(*read_u32, base, 0));
            return Err(String::from_str("e_lfanew 읽기 실패"));
        },
    };
    let pe = base + e as u64;
    let timestamp = match read_u32(pe + 8) {
        Some(v) => v,
        None => {
            assert(pe_field_failed(*read_u32, base, 1));
            return Err(String::from_str("TimeDateStamp 읽기 실패"));
        },
    };
    let opt = pe + 24;
    let size_of_image = match read_u32(opt + 56) {
        Some(v) => v,
        None => {
            assert(pe_field_failed(*read_u32, base, 2));
            return Err(String::from_str("SizeOfImage 읽기 실패"));
        },
    };
    let dd = opt + 112 + 24;
    let pdata_rva = match read_u32(dd) {
        Some(v) => v,
        None => {
            assert(pe_field_failed(*read_u32, base, 3));
            return Err(String::from_str(".pdata RVA 읽기 실패"));
        },
    };
    let pdata_size = match read_u32(dd + 4) {
        Some(v) => v,
        None => {
            assert(pe_field_failed(*read_u32, base, 4));
            return Err(String::from_str(".pdata size 읽기 실패"));
        },
    };
    let d = PeExceptionDir { timestamp, size_of_image, pdata_rva, pdata_size };
    assert(read_u32.ensures(((base + 0x3C) as u64,), Some(e)));
    Ok(d)
}

/// Joining rules of the user-mode scan: a gap of at most 4096 bytes, at most
/// 256 KiB from the batch start, and a plain (wrapping) distance, so that an
/// overlapping function starts a new batch.
pub fn user_batch_rules() -> (r: BatchRules)
    ensures
        r == (BatchRules { max_gap: 4096, max_batch: 262144, saturating: false }),
{
    BatchRules { max_gap: 4096, max_batch: 262144, saturating: false }
}

/// The reads a successful user-mode scan rests on: the header fields, the
/// whole records of `.pdata`, and the batch starting at a usable function's
/// begin in which `rva` is the first anchor.
pub open spec fn user_anchor_found_via<F: Fn(u64) -> Option<u32>, G: Fn(u64, usize) -> Option<Vec<u8>>>(
    read_u32: F,
    read_mem: G,
    base: u64,
    d: PeExceptionDir,
    pd: Vec<u8>,
    start: u64,
    batch: Vec<u8>,
    rva: u64,
) -> bool {
    &&& pe_dir_read(read_u32, base, d)
    &&& d.pdata_rva != 0
    &&& d.pdata_size >= 12
    &&& read_mem.ensures(((base + d.pdata_rva) as u64, ((d.pdata_size / 12) * 12) as usize), Some(pd))
    &&& exists|k: int|
        0 <= k < usable_ranges(pd@, d.size_of_image as int).len() && usable_ranges(
            pd@,
            d.size_of_image as int,
        )[k].0 == start
    &&& read_mem.ensures(((base + start) as u64, batch@.len() as usize), Some(batch))
    &&& first_anchor(batch@, start as int, d.size_of_image as int) == Some(rva as int)
    &&& 0 < rva < d.size_of_image
}

/// The user-mode scan finds `rva` first: the header read as `d`, the
/// whole `.pdata` records as `pd`, an arrangement `fs` of its usable ranges
/// by begin address, every batch before the one starting with range `k`
/// came back without an anchor, and that batch was read as `batch` with
/// `rva` its first anchor.
pub open spec fn user_anchor_first_via<F: Fn(u64) -> Option<u32>, G: Fn(u64, usize) -> Option<Vec<u8>>>(
    read_u32: F,
    read_mem: G,
    base: u64,
    d: PeExceptionDir,
    pd: Vec<u8>,
    fs: Seq<FunctionRange>,
    k: int,
    batch: Vec<u8>,
    rva: u64,
) -> bool {
    &&& pe_dir_read(read_u32, base, d)
    &&& d.pdata_rva != 0
    &&& d.pdata_size >= 12
    &&& read_mem.ensures(((base + d.pdata_rva) as u64, ((d.pdata_size / 12) * 12) as usize), Some(pd))
    &&& sorted_by_begin(fs)
    &&& fs.to_multiset() == usable_ranges(pd@, d.size_of_image as int).to_multiset()
    &&& batches_miss_until(
        read_mem,
        base,
        d.size_of_image as int,
        fs,
        0,
        k,
        BatchRules { max_gap: 4096, max_batch: 262144, saturating: false },
        0x1_0000_0000,
        0,
    )
    &&& batch_hits(
        read_mem,
        base,
        d.size_of_image as int,
        fs,
        k,
        BatchRules { max_gap: 4096, max_batch: 262144, saturating: false },
        0x1_0000_0000,
        0,
        batch,
        rva,
    )
}

/// Some reads of the module at `base` show `rva` as the first anchor the
/// scan meets.
pub open spec fn user_anchor_found_first<F: Fn(u64) -> Option<u32>, G: Fn(u64, usize) -> Option<Vec<u8>>>(
    read_u32: F,
    read_mem: G,
    base: u64,
    rva: u64,
) -> bool {
    exists|d: PeExceptionDir, pd: Vec<u8>, fs: Seq<FunctionRange>, k: int, batch: Vec<u8>|
        #[trigger] user_anchor_first_via(read_u32, read_mem, base, d, pd, fs, k, batch, rva)
}

/// Some reads of the module at `base` show `rva` as the scan's result.
pub open spec fn user_anchor_found<F: Fn(u64) -> Option<u32>, G: Fn(u64, usize) -> Option<Vec<u8>>>(
    read_u32: F,
    read_mem: G,
    base: u64,
    rva: u64,
) -> bool {
    exists|d: PeExceptionDir, pd: Vec<u8>, start: u64, batch: Vec<u8>|
        user_anchor_found_via(read_u32, read_mem, base, d, pd, start, batch, rva)
}

/// The texts a failed user-mode scan reports.
pub open spec fn scan_error_text(m: Seq<char>) -> bool {
    ||| pe_dir_error_text(m)
    ||| m == ".pdata 섹션을 찾지 못했습니다."@
    ||| m == ".pdata 읽기 실패"@
    ||| m == "GWorld 패턴을 찾지 못했습니다."@
}

proof fn lemma_scan_texts_distinct()
    ensures
        forall|k: int|
            0 <= k <= 4 ==> #[trigger] pe_field_text(k) != ".pdata 섹션을 찾지 못했습니다."@ && pe_field_text(k)
                != ".pdata 읽기 실패"@,
        ".pdata 섹션을 찾지 못했습니다."@ != ".pdata 읽기 실패"@,
        !pe_dir_error_text(".pdata 섹션을 찾지 못했습니다."@),
        !pe_dir_error_text(".pdata 읽기 실패"@),
        !pe_dir_error_text("GWorld 패턴을 찾지 못했습니다."@),
        "GWorld 패턴을 찾지 못했습니다."@ != ".pdata 섹션을 찾지 못했습니다."@,
        "GWorld 패턴을 찾지 못했습니다."@ != ".pdata 읽기 실패"@,
{
    reveal_strlit("GWorld 패턴을 찾지 못했습니다.");
    reveal_strlit(".pdata 섹션을 찾지 못했습니다.");
    reveal_strlit(".pdata 읽기 실패");
    reveal_strlit("e_lfanew 읽기 실패");
    reveal_strlit("TimeDateStamp 읽기 실패");
    reveal_strlit("SizeOfImage 읽기 실패");
    reveal_strlit(".pdata RVA 읽기 실패");
    reveal_strlit(".pdata size 읽기 실패");
    let a = ".pdata 섹션을 찾지 못했습니다."@;
    let b = ".pdata 읽기 실패"@;
    assert(a[7] != b[7]);
    assert forall|k: int| 0 <= k <= 4 implies #[trigger] pe_field_text(k) != a && pe_field_text(k) != b by {
        let t = pe_field_text(k);
        if k <= 2 {
            assert(t[0] != a[0] && t[0] != b[0]);
        } else {
            assert(t[7] != a[7] && t[7] != b[7]);
        }
    }
    assert(pe_field_text(0) != a && pe_field_text(1) != a && pe_field_text(2) != a);
    assert(pe_field_text(3) != a && pe_field_text(4) != a);
    assert(pe_field_text(0) != b && pe_field_text(1) != b && pe_field_text(2) != b);
    assert(pe_field_text(3) != b && pe_field_text(4) != b);
    let c = "GWorld 패턴을 찾지 못했습니다."@;
    assert(c[0] != a[0] && c[0] != b[0]);
    assert(c[0] != pe_field_text(0)[0] && c[0] != pe_field_text(1)[0] && c[0] != pe_field_text(2)[0]);
    assert(c[0] != pe_field_text(3)[0] && c[0] != pe_field_text(4)[0]);
}

/// The header was read as `d` but names no usable exception directory.
pub open spec fn no_pdata<F: Fn(u64) -> Option<u32>>(read_u32: F, base: u64, d: PeExceptionDir) -> bool {
    pe_dir_read(read_u32, base, d) && (d.pdata_rva == 0 || d.pdata_size < 12)
}

/// The header was read as `d` but its exception directory could not be.
pub open spec fn pdata_unreadable<F: Fn(u64) -> Option<u32>, G: Fn(u64, usize) -> Option<Vec<u8>>>(
    read_u32: F,
    read_mem: G,
    base: u64,
    d: PeExceptionDir,
) -> bool {
    &&& pe_dir_read(read_u32, base, d)
    &&& d.pdata_rva != 0
    &&& d.pdata_size >= 12
    &&& read_mem.ensures(((base + d.pdata_rva) as u64, ((d.pdata_size / 12) * 12) as usize), None::<Vec<u8>>)
}

/// The header was read as `d`, its whole `.pdata` records as `pd`, and
/// some arrangement of the usable ranges by begin address has all its
/// batches, read whole under the user-mode rules, come back without an
/// anchor.
pub open spec fn pattern_missing<F: Fn(u64) -> Option<u32>, G: Fn(u64, usize) -> Option<Vec<u8>>>(
    read_u32: F,
    read_mem: G,
    base: u64,
    d: PeExceptionDir,
    pd: Vec<u8>,
) -> bool {
    &&& pe_dir_read(read_u32, base, d)
    &&& d.pdata_rva != 0
    &&& d.pdata_size >= 12
    &&& read_mem.ensures(((base + d.pdata_rva) as u64, ((d.pdata_size / 12) * 12) as usize), Some(pd))
    &&& exists|fs: Seq<FunctionRange>|
        sorted_by_begin(fs) && fs.to_multiset() == usable_ranges(pd@, d.size_of_image as int).to_multiset()
            && #[trigger] batches_miss(
            read_mem,
            base,
            d.size_of_image as int,
            fs,
            0,
            BatchRules { max_gap: 4096, max_batch: 262144, saturating: false },
            0x1_0000_0000,
            0,
        )
}

/// Some outcomes of the reads of the module at `base` leave the user-mode
/// scan without an RVA: a header field unreadable, no usable `.pdata`,
/// `.pdata` unreadable, or no batch holding the anchor.
pub open spec fn user_scan_misses<F: Fn(u64) -> Option<u32>, G: Fn(u64, usize) -> Option<Vec<u8>>>(
    read_u32: F,
    read_mem: G,
    base: u64,
) -> bool {
    ||| exists|k: int| 0 <= k <= 4 && #[trigger] pe_field_failed(read_u32, base, k)
    ||| exists|d: PeExceptionDir| #[trigger] no_pdata(read_u32, base, d)
    ||| exists|d: PeExceptionDir| #[trigger] pdata_unreadable(read_u32, read_mem, base, d)
    ||| exists|d: PeExceptionDir, pd: Vec<u8>| #[trigger] pattern_missing(read_u32, read_mem, base, d, pd)
}

/// Scans the module at `base` for the GWorld RVA through `ReadProcessMemory`
/// style reads: `read_u32(address)` and `read_mem(address, length)`.
pub fn scan_gworld_rva(
    base: u64,
    read_u32: &impl Fn(u64) -> Option<u32>,
    read_mem: &impl Fn(u64, usize) -> Option<Vec<u8>>,
) -> (r: Result<u64, String>)
    requires
        base <= 0x7FFF_FFFF_FFFF,
        forall|a: u64| read_u32.requires((a,)),
        forall|a: u64, n: usize| read_mem.requires((a, n)),
        forall|a: u64, n: usize, out: Option<Vec<u8>>|
            read_mem.ensures((a, n), out) ==> (out matches Some(v) ==> v@.len() == n),
    ensures
        r matches Ok(rva) ==> user_anchor_found(*read_u32, *read_mem, base, rva),
        r matches Ok(rva) ==> user_anchor_found_first(*read_u32, *read_mem, base, rva),
        r matches Err(m) ==> scan_error_text(m@),
        r matches Err(m) ==> (pe_dir_error_text(m@) ==> exists|k: int|
            0 <= k <= 4 && m@ == pe_field_text(k) && #[trigger] pe_field_failed(*read_u32, base, k)),
        r matches Err(m) ==> (m@ == ".pdata 섹션을 찾지 못했습니다."@ ==> exists|d: PeExceptionDir|
            #[trigger] no_pdata(*read_u32, base, d)),
        r matches Err(m) ==> (m@ == ".pdata 읽기 실패"@ ==> exists|d: PeExceptionDir|
            #[trigger] pdata_unreadable(*read_u32, *read_mem, base, d)),
        r matches Err(m) ==> (m@ == "GWorld 패턴을 찾지 못했습니다."@ ==> exists|d: PeExceptionDir, pd: Vec<u8>|
            #[trigger] pattern_missing(*read_u32, *read_mem, base, d, pd)),
        r is Err ==> user_scan_misses(*read_u32, *read_mem, base),
{
    broadcast use vstd::seq_lib::group_to_multiset_ensures;

    let d = match read_pe_exception_dir(base, read_u32) {
        Ok(d) => d,
        Err(m) => {
            proof {
                lemma_scan_texts_distinct();
            }
            return Err(m);
        },
    };
    if d.pdata_rva == 0 || d.pdata_size < 12 {
        assert(no_pdata(*read_u32, base, d));
        proof {
            lemma_scan_texts_distinct();
        }
        return Err(String::from_str(".pdata 섹션을 찾지 못했습니다."));
    }
    let entry_count = d.pdata_size as usize / 12;
    let pd = match read_mem(base + d.pdata_rva as u64, entry_count * 12) {
        Some(p) => p,
        None => {
            assert(pdata_unreadable(*read_u32, *read_mem, base, d));
            proof {
                lemma_scan_texts_distinct();
            }
            return Err(String::from_str(".pdata 읽기 실패"));
        },
    };
    let soi = d.size_of_image;
    let usable = usable_function_ranges(pd.as_slice(), soi);
    let fs = sort_by_begin(usable);
    proof {
        let ghost pred = |r: FunctionRange| usable_range(r, soi as int);
        assert forall|k: int| 0 <= k < fs@.len() implies fs@[k].1 > fs@[k].0 by {
            assert(fs@.contains(fs@[k]));
            vstd::seq_lib::to_multiset_contains(fs@, fs@[k]);
            vstd::seq_lib::to_multiset_contains(usable@, fs@[k]);
            let m = choose|m: int| 0 <= m < usable@.len() && usable@[m] == fs@[k];
            raw_function_ranges(pd@).lemma_filter_pred(pred, m);
        }
    }
    let rules = user_batch_rules();
    let mut i: usize = 0;
    while i < fs.len()
        invariant
            base <= 0x7FFF_FFFF_FFFF,
            forall|a: u64, n: usize| read_mem.requires((a, n)),
            forall|a: u64, n: usize, out: Option<Vec<u8>>|
                read_mem.ensures((a, n), out) ==> (out matches Some(v) ==> v@.len() == n),
            pe_dir_read(*read_u32, base, d),
            d.pdata_rva != 0,
            d.pdata_size >= 12,
            entry_count == d.pdata_size / 12,
            read_mem.ensures(((base + d.pdata_rva) as u64, (entry_count * 12) as usize), Some(pd)),
            soi == d.size_of_image,
            fs@.to_multiset() == usable_ranges(pd@, soi as int).to_multiset(),
            forall|k: int| 0 <= k < fs@.len() ==> fs@[k].1 > fs@[k].0,
            sorted_by_begin(fs@),
            rules == (BatchRules { max_gap: 4096, max_batch: 262144, saturating: false }),
            i <= fs@.len(),
            batches_miss(*read_mem, base, soi as int, fs@, i as int, rules, 0x1_0000_0000, 0)
                ==> batches_miss(*read_mem, base, soi as int, fs@, 0, rules, 0x1_0000_0000, 0),
            batches_miss_until(*read_mem, base, soi as int, fs@, 0, i as int, rules, 0x1_0000_0000, 0),
        decreases fs@.len() - i,
    {
        let (start, end, j) = plan_batch(fs.as_slice(), i, rules);
        proof {
            assert(fs@[j - 1].0 >= fs@[i as int].0);
            assert(fs@[j - 1].1 > fs@[j - 1].0);
            lemma_batch_end(fs@, i as int, i as int + 1, j as int, rules);
        }
        let read_size = (end - start) as usize;
        let batch_out = read_mem(base + start, read_size);
        let ghost batch_seen = batch_out;
        if let Some(batch) = batch_out {
            if let Some(rva) = scan_world_anchor(batch.as_slice(), start, soi as u64) {
                proof {
                    let ghost usable_seq = usable_ranges(pd@, soi as int);
                    assert(fs@.contains(fs@[i as int]));
                    vstd::seq_lib::to_multiset_contains(fs@, fs@[i as int]);
                    vstd::seq_lib::to_multiset_contains(usable_seq, fs@[i as int]);
                    let k = choose|k: int| 0 <= k < usable_seq.len() && usable_seq[k] == fs@[i as int];
                    assert(usable_seq[k].0 == start);
                    lemma_first_anchor_sound(batch@, start as int, soi as int, 0);
                    assert(user_anchor_found_via(*read_u32, *read_mem, base, d, pd, start, batch, rva));
                    assert(batch_read_at(fs@, i as int, rules, 0x1_0000_0000) == (start as int, read_size as int));
                    assert(batch_hits(*read_mem, base, soi as int, fs@, i as int, rules, 0x1_0000_0000, 0, batch, rva));
                    assert(user_anchor_first_via(*read_u32, *read_mem, base, d, pd, fs@, i as int, batch, rva));
                }
                assert(user_anchor_found_first(*read_u32, *read_mem, base, rva));
                assert(user_anchor_found(*read_u32, *read_mem, base, rva));
                return Ok(rva);
            }
        }
        assert(read_mem.ensures(((base + start) as u64, read_size), batch_seen));
        proof {
            assert(batch_read_at(fs@, i as int, rules, 0x1_0000_0000) == (start as int, read_size as int));
            assert(batch_misses(*read_mem, base, soi as int, fs@, i as int, rules, 0x1_0000_0000, 0));
            lemma_miss_until_extend(*read_mem, base, soi as int, fs@, 0, i as int, rules, 0x1_0000_0000, 0);
        }
        i = j;
    }
    proof {
        lemma_scan_texts_distinct();
        assert(batches_miss(*read_mem, base, soi as int, fs@, 0, rules, 0x1_0000_0000, 0));
        assert(pattern_missing(*read_u32, *read_mem, base, d, pd));
    }
    Err(String::from_str("GWorld 패턴을 찾지 못했습니다."))
}

/// One remembered scan result: the RVA found in an executable, identified by
/// its path, link time stamp and image size.
#[derive(Debug)]
pub struct GworldScanCacheEntry {
    pub exe_path: String,
    pub pe_timestamp: u32,
    pub size_of_image: u32,
    pub gworld_rva: u64,
}

impl Clone for GworldScanCacheEntry {
    fn clone(&self) -> (r: Self)
        ensures
            r == *self,
    {
        GworldScanCacheEntry {
            exe_path: self.exe_path.clone(),
            pe_timestamp: self.pe_timestamp,
            size_of_image: self.size_of_image,
            gworld_rva: self.gworld_rva,
        }
    }
}

/// The scan results remembered across runs.
#[derive(Debug)]
pub struct GworldScanCache {
    pub entries: Vec<GworldScanCacheEntry>,
}

/// An entry for exactly this executable build.
pub open spec fn scan_entry_matches(e: GworldScanCacheEntry, exe_path: Seq<char>, timestamp: u32, size_of_image: u32) -> bool {
    e.exe_path@ == exe_path && e.pe_timestamp == timestamp && e.size_of_image == size_of_image
}

/// The RVA of the first entry for this build, if any.
pub open spec fn spec_cached_scan_rva(entries: Seq<GworldScanCacheEntry>, exe_path: Seq<char>, timestamp: u32, size_of_image: u32) -> Option<u64>
    decreases entries.len(),
{
    if entries.len() == 0 {
        None
    } else if scan_entry_matches(entries[0], exe_path, timestamp, size_of_image) {
        Some(entries[0].gworld_rva)
    } else {
        spec_cached_scan_rva(entries.drop_first(), exe_path, timestamp, size_of_image)
    }
}

impl GworldScanCache {
    /// An empty cache.
    pub fn new() -> (r: Self)
        ensures
            r.entries@.len() == 0,
    {
        GworldScanCache { entries: Vec::new() }
    }

    /// The remembered RVA for this build of the executable, if any.
    pub fn cached_rva(&self, exe_path: &str, timestamp: u32, size_of_image: u32) -> (r: Option<u64>)
        ensures
            r == spec_cached_scan_rva(self.entries@, exe_path@, timestamp, size_of_image),
    {
        let wanted = String::from_str(exe_path);
        let mut i: usize = 0;
        assert(self.entries@.skip(0) =~= self.entries@);
        while i < self.entries.len()
            invariant
                i <= self.entries@.len(),
                wanted@ == exe_path@,
                spec_cached_scan_rva(self.entries@, exe_path@, timestamp, size_of_image)
                    == spec_cached_scan_rva(self.entries@.skip(i as int), exe_path@, timestamp, size_of_image),
            decreases self.entries@.len() - i,
        {
            proof {
                let rest = self.entries@.skip(i as int);
                assert(rest[0] == self.entries@[i as int]);
                assert(rest.drop_first() =~= self.entries@.skip(i + 1));
            }
            let e = &self.entries[i];
            if e.exe_path == wanted && e.pe_timestamp == timestamp && e.size_of_image == size_of_image {
                return Some(e.gworld_rva);
            }
            i = i + 1;
        }
        None
    }

    /// Remembers a scan result, dropping every older entry of the same
    /// executable path.
    pub fn record(&mut self, entry: GworldScanCacheEntry)
        ensures
            final(self).entries@.len() >= 1,
            final(self).entries@.last() == entry,
            forall|k: int|
                0 <= k < final(self).entries@.len() - 1 ==> #[trigger] final(self).entries@[k].exe_path@
                    != entry.exe_path@,
            forall|k: int|
                0 <= k < old(self).entries@.len() && old(self).entries@[k].exe_path@ != entry.exe_path@
                    ==> final(self).entries@.contains(#[trigger] old(self).entries@[k]),
    {
        let mut kept: Vec<GworldScanCacheEntry> = Vec::new();
        let mut i: usize = 0;
        while i < self.entries.len()
            invariant
                i <= self.entries@.len(),
                forall|k: int| 0 <= k < kept@.len() ==> #[trigger] kept@[k].exe_path@ != entry.exe_path@,
                forall|k: int|
                    0 <= k < i && self.entries@[k].exe_path@ != entry.exe_path@ ==> kept@.contains(
                        #[trigger] self.entries@[k],
                    ),
            decreases self.entries@.len() - i,
        {
            let e = &self.entries[i];
            if e.exe_path != entry.exe_path {
                let ghost before = kept@;
                kept.push(e.clone());
                proof {
                    assert forall|k: int|
                        0 <= k < i + 1 && self.entries@[k].exe_path@ != entry.exe_path@ implies kept@.contains(
                            #[trigger] self.entries@[k],
                        ) by {
                        if k < i {
                            let w = choose|w: int| 0 <= w < before.len() && before[w] == self.entries@[k];
                            assert(kept@[w] == before[w]);
                        } else {
                            assert(kept@[kept@.len() - 1] == self.entries@[k]);
                        }
                    }
                }
            }
            i = i + 1;
        }
        let ghost kept_before = kept@;
        kept.push(entry);
        proof {
            assert forall|k: int|
                0 <= k < self.entries@.len() && self.entries@[k].exe_path@ != entry.exe_path@ implies kept@.contains(
                    #[trigger] self.entries@[k],
                ) by {
                let w = choose|w: int| 0 <= w < kept_before.len() && kept_before[w] == self.entries@[k];
                assert(kept@[w] == kept_before[w]);
            }
        }
        self.entries = kept;
    }
}

/// Finds the GWorld RVA of the module at `base` of the executable at
/// `exe_path`, answering from `cache` when it holds an entry for this build
/// (same path, time stamp and image size); a fresh scan result is
/// remembered. The second result says whether the cache changed and should
/// be saved.
pub fn find_gworld_rva_with_cache(
    cache: &mut GworldScanCache,
    exe_path: &str,
    base: u64,
    read_u32: &impl Fn(u64) -> Option<u32>,
    read_mem: &impl Fn(u64, usize) -> Option<Vec<u8>>,
) -> (r: (Result<u64, String>, bool))
    requires
        base <= 0x7FFF_FFFF_FFFF,
        forall|a: u64| read_u32.requires((a,)),
        forall|a: u64, n: usize| read_mem.requires((a, n)),
        forall|a: u64, n: usize, out: Option<Vec<u8>>|
            read_mem.ensures((a, n), out) ==> (out matches Some(v) ==> v@.len() == n),
    ensures
        !r.1 ==> final(cache).entries@ == old(cache).entries@,
        r.1 ==> r.0 is Ok && user_anchor_found(*read_u32, *read_mem, base, r.0->Ok_0)
            && final(cache).entries@.last().exe_path@ == exe_path@
            && final(cache).entries@.last().gworld_rva == r.0->Ok_0,
        !r.1 && r.0 is Ok ==> exists|d: PeExceptionDir|
            pe_dir_read(*read_u32, base, d) && #[trigger] spec_cached_scan_rva(
                old(cache).entries@,
                exe_path@,
                d.timestamp,
                d.size_of_image,
            ) == Some(r.0->Ok_0),
        r.0 matches Err(m) ==> scan_error_text(m@),
        r.0 is Err ==> (exists|k: int| 0 <= k <= 4 && #[trigger] pe_field_failed(*read_u32, base, k)) || (exists|
            d: PeExceptionDir,
        |
            #[trigger] pe_dir_read(*read_u32, base, d) && spec_cached_scan_rva(
                old(cache).entries@,
                exe_path@,
                d.timestamp,
                d.size_of_image,
            ) is None && user_scan_misses(*read_u32, *read_mem, base)),
        r.1 ==> exists|d: PeExceptionDir|
            #[trigger] pe_dir_read(*read_u32, base, d) && spec_cached_scan_rva(
                old(cache).entries@,
                exe_path@,
                d.timestamp,
                d.size_of_image,
            ) is None && final(cache).entries@.last().pe_timestamp == d.timestamp
                && final(cache).entries@.last().size_of_image == d.size_of_image,
{
    let d = match read_pe_exception_dir(base, read_u32) {
        Ok(d) => d,
        Err(m) => return (Err(m), false),
    };
    if let Some(rva) = cache.cached_rva(exe_path, d.timestamp, d.size_of_image) {
        return (Ok(rva), false);
    }
    let rva = match scan_gworld_rva(base, read_u32, read_mem) {
        Ok(rva) => rva,
        Err(m) => return (Err(m), false),
    };
    cache.record(
        GworldScanCacheEntry {
            exe_path: String::from_str(exe_path),
            pe_timestamp: d.timestamp,
            size_of_image: d.size_of_image,
            gworld_rva: rva,
        },
    );
    (Ok(rva), true)
}

/// Scans again after the remembered RVA stopped working: the new RVA, or 0
/// (read through the offset table instead) when the scan fails. A found RVA
/// is remembered when the header can still be read; the second result says
/// whether the cache changed.
pub fn rescan_gworld(
    cache: &mut GworldScanCache,
    exe_path: &str,
    base: u64,
    read_u32: &impl Fn(u64) -> Option<u32>,
    read_mem: &impl Fn(u64, usize) -> Option<Vec<u8>>,
) -> (r: (u64, bool))
    requires
        base <= 0x7FFF_FFFF_FFFF,
        forall|a: u64| read_u32.requires((a,)),
        forall|a: u64, n: usize| read_mem.requires((a, n)),
        forall|a: u64, n: usize, out: Option<Vec<u8>>|
            read_mem.ensures((a, n), out) ==> (out matches Some(v) ==> v@.len() == n),
    ensures
        r.0 != 0 ==> user_anchor_found(*read_u32, *read_mem, base, r.0),
        r.0 == 0 ==> user_scan_misses(*read_u32, *read_mem, base),
        r.0 != 0 && !r.1 ==> exists|k: int| 0 <= k <= 4 && #[trigger] pe_field_failed(*read_u32, base, k),
        r.1 ==> r.0 != 0 && final(cache).entries@.last().exe_path@ == exe_path@
            && final(cache).entries@.last().gworld_rva == r.0,
        r.1 ==> exists|d: PeExceptionDir|
            #[trigger] pe_dir_read(*read_u32, base, d) && final(cache).entries@.last().pe_timestamp
                == d.timestamp && final(cache).entries@.last().size_of_image == d.size_of_image,
        r.1 ==> forall|k: int|
            0 <= k < final(cache).entries@.len() - 1 ==> #[trigger] final(cache).entries@[k].exe_path@
                != exe_path@,
        r.1 ==> forall|k: int|
            0 <= k < old(cache).entries@.len() && old(cache).entries@[k].exe_path@ != exe_path@
                ==> final(cache).entries@.contains(#[trigger] old(cache).entries@[k]),
        !r.1 ==> final(cache).entries@ == old(cache).entries@,
{
    match scan_gworld_rva(base, read_u32, read_mem) {
        Ok(rva) => {
            proof {
                let (d, pd, start, batch) = choose|d: PeExceptionDir, pd: Vec<u8>, start: u64, batch: Vec<u8>|
                    user_anchor_found_via(*read_u32, *read_mem, base, d, pd, start, batch, rva);
            }
            match read_pe_exception_dir(base, read_u32) {
                Ok(d) => {
                    cache.record(
                        GworldScanCacheEntry {
                            exe_path: String::from_str(exe_path),
                            pe_timestamp: d.timestamp,
                            size_of_image: d.size_of_image,
                            gworld_rva: rva,
                        },
                    );
                    (rva, true)
                },
                Err(_) => (rva, false),
            }
        },
        Err(_) => (0, false),
    }
}

/// The RVA `GWorld` is read at: the scanned one when the scan found it,
/// else the one of the offset variant.
pub open spec fn gworld_rva_used(scanned_rva: u64, offset: WuwaOffset) -> u64 {
    if scanned_rva != 0 {
        scanned_rva
    } else {
        offset.global_gworld
    }
}

/// Where `GWorld` is read in the module at `base`.
pub fn gworld_address(base: u64, scanned_rva: u64, offset: &WuwaOffset) -> (r: u64)
    requires
        base + gworld_rva_used(scanned_rva, *offset) <= u64::MAX,
    ensures
        r == base + gworld_rva_used(scanned_rva, *offset),
{
    let rva = if scanned_rva != 0 {
        scanned_rva
    } else {
        offset.global_gworld
    };
    base + rva
}

/// The error of a failed `GWorld` read at `target`.
pub open spec fn gworld_read_error_text(target: u64, cause: NativeError) -> Seq<char> {
    "GWorld 위치 ("@ + hex_upper(target as nat) + ")의 주소 값을 읽지 못했습니다: "@ + display_text(cause)
}

/// The error reported when `GWorld` cannot be read at `target`.
pub fn gworld_read_error(target: u64, cause: &NativeError) -> (r: NativeError)
    ensures
        r matches NativeError::PointerChainError { message } && message@ == gworld_read_error_text(target, *cause),
{
    let mut m = String::from_str("GWorld 위치 (");
    m.append(hex_upper_string(target).as_str());
    m.append(")의 주소 값을 읽지 못했습니다: ");
    m.append(cause.to_display_string().as_str());
    NativeError::PointerChainError { message: m }
}

/// The exit code a process reports while it still runs (`STILL_ACTIVE`).
pub const STILL_ACTIVE: u32 = 259;

/// Whether the process runs: its exit code could be queried and is
/// `STILL_ACTIVE`.
pub fn process_alive(query_ok: bool, exit_code: u32) -> (r: bool)
    ensures
        r == (query_ok && exit_code == STILL_ACTIVE),
{
    query_ok && exit_code == STILL_ACTIVE
}

/// The error text of a short or failed `ReadProcessMemory`.
pub open spec fn process_read_error_text(address: u64, bytes_read: u64, len: u64) -> Seq<char> {
    "ReadProcessMemory 실패: address="@ + hex_upper(address as nat) + ", bytes_read="@ + decimal(
        bytes_read as nat,
    ) + "/"@ + decimal(len as nat)
}

/// The outcome of one `ReadProcessMemory` of `len` bytes at `address`: a
/// success only when the call succeeded and copied every byte.
pub fn check_process_read(success: bool, address: u64, bytes_read: u64, len: u64) -> (r: Result<(), NativeError>)
    ensures
        success && bytes_read == len ==> r is Ok,
        !(success && bytes_read == len) ==> (r matches Err(NativeError::ValueReadError { message })
            && message@ == process_read_error_text(address, bytes_read, len)),
{
    if success && bytes_read == len {
        return Ok(());
    }
    let mut m = String::from_str("ReadProcessMemory 실패: address=");
    m.append(hex_upper_string(address).as_str());
    m.append(", bytes_read=");
    m.append(decimal_string(bytes_read).as_str());
    m.append("/");
    m.append(decimal_string(len).as_str());
    Err(NativeError::ValueReadError { message: m })
}

} // verus!
