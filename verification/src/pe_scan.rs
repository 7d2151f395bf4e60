//! Locating the world anchor inside the game's main module: PE header fields,
//! the `.pdata` function table, batching of adjacent functions into reads, and
//! the byte-pattern scan for the `MOV RBX, [RIP+disp32]` that loads the anchor.

use vstd::prelude::*;
use crate::bytes::{as_signed32, fits4, le_u32_at, read_i32, read_u32};

verus! {

/// Length of `MOV RBX, [RIP+disp32]`, the instruction whose displacement the
/// scan resolves.
pub const INSTRUCTION_LEN: usize = 7;

/// Total number of bytes the anchor pattern spans.
pub const PATTERN_LEN: usize = 15;

/// `48 8B 1D` (prefix), then the 32-bit displacement, then
/// `48 85 DB 74 ?? 41 B0 01`, where `??` matches any byte.
pub open spec fn pattern_matches_at(scan: Seq<u8>, off: int) -> bool {
    &&& scan[off] == 0x48u8
    &&& scan[off + 1] == 0x8Bu8
    &&& scan[off + 2] == 0x1Du8
    &&& scan[off + 7] == 0x48u8
    &&& scan[off + 8] == 0x85u8
    &&& scan[off + 9] == 0xDBu8
    &&& scan[off + 10] == 0x74u8
    &&& scan[off + 12] == 0x41u8
    &&& scan[off + 13] == 0xB0u8
    &&& scan[off + 14] == 0x01u8
}

/// The anchor pattern, byte for byte: `48 8B 1D` (MOV RBX,[RIP+disp32]),
/// four displacement bytes, then `48 85 DB` (TEST RBX,RBX), `74 ??` (JE,
/// any offset) and `41 B0 01` (MOV R8B,1). A match at `off` holds exactly
/// these ten fixed bytes; only the displacement and the jump offset are
/// free.
pub proof fn law_anchor_pattern_bytes(scan: Seq<u8>, off: int)
    ensures
        pattern_matches_at(scan, off) <==> (scan[off] == 0x48u8 && scan[off + 1] == 0x8Bu8 && scan[off + 2]
            == 0x1Du8 && scan[off + 7] == 0x48u8 && scan[off + 8] == 0x85u8 && scan[off + 9] == 0xDBu8
            && scan[off + 10] == 0x74u8 && scan[off + 12] == 0x41u8 && scan[off + 13] == 0xB0u8 && scan[off
            + 14] == 0x01u8),
        pattern_matches_at(scan, off) ==> scan[off + 12] == 0x41u8 && scan[off + 13] == 0xB0u8 && scan[off
            + 14] == 0x01u8,
{
}

/// The RIP-relative target of the instruction found at `off` of a batch that
/// starts at image offset `batch_start`.
pub open spec fn anchor_rva_at(scan: Seq<u8>, batch_start: int, off: int) -> int {
    batch_start + off + INSTRUCTION_LEN + as_signed32(le_u32_at(scan, off + 3))
}

/// A match at `off` whose target lies strictly inside the image.
pub open spec fn anchor_hit(scan: Seq<u8>, batch_start: int, size_of_image: int, off: int) -> bool {
    &&& 0 <= off
    &&& off + PATTERN_LEN <= scan.len()
    &&& pattern_matches_at(scan, off)
    &&& 0 < anchor_rva_at(scan, batch_start, off) < size_of_image
}

/// The target of the first hit at or after `off`, scanning upward.
pub open spec fn first_anchor_from(scan: Seq<u8>, batch_start: int, size_of_image: int, off: int) -> Option<int>
    decreases scan.len() - off,
{
    if off < 0 || off + PATTERN_LEN > scan.len() {
        None
    } else if anchor_hit(scan, batch_start, size_of_image, off) {
        Some(anchor_rva_at(scan, batch_start, off))
    } else {
        first_anchor_from(scan, batch_start, size_of_image, off + 1)
    }
}

/// The first hit of a whole batch.
pub open spec fn first_anchor(scan: Seq<u8>, batch_start: int, size_of_image: int) -> Option<int> {
    first_anchor_from(scan, batch_start, size_of_image, 0)
}

/// Every hit found by `first_anchor_from` is a hit, at or after `off`, and no
/// earlier offset from `off` on is one.
pub proof fn lemma_first_anchor_sound(scan: Seq<u8>, batch_start: int, size_of_image: int, off: int)
    requires
        0 <= off,
    ensures
        first_anchor_from(scan, batch_start, size_of_image, off) matches Some(rva) ==> exists|k: int|
            off <= k && anchor_hit(scan, batch_start, size_of_image, k) && rva == anchor_rva_at(
                scan,
                batch_start,
                k,
            ) && forall|m: int| off <= m < k ==> !anchor_hit(scan, batch_start, size_of_image, m),
        first_anchor_from(scan, batch_start, size_of_image, off) is None ==> forall|m: int|
            off <= m ==> !anchor_hit(scan, batch_start, size_of_image, m),
    decreases scan.len() - off,
{
    if off + PATTERN_LEN > scan.len() {
    } else if anchor_hit(scan, batch_start, size_of_image, off) {
        assert(forall|m: int| off <= m < off ==> !anchor_hit(scan, batch_start, size_of_image, m));
    } else {
        lemma_first_anchor_sound(scan, batch_start, size_of_image, off + 1);
        if let Some(rva) = first_anchor_from(scan, batch_start, size_of_image, off + 1) {
            let k = choose|k: int|
                off + 1 <= k && anchor_hit(scan, batch_start, size_of_image, k) && rva
                    == anchor_rva_at(scan, batch_start, k) && forall|m: int|
                    off + 1 <= m < k ==> !anchor_hit(scan, batch_start, size_of_image, m);
            assert(forall|m: int| off <= m < k ==> !anchor_hit(scan, batch_start, size_of_image, m));
        }
    }
}

/// Whether the anchor pattern occurs at `off`; `off + 15` must lie in `scan`.
fn pattern_at(scan: &[u8], off: usize) -> (r: bool)
    requires
        off + PATTERN_LEN <= scan@.len(),
    ensures
        r == pattern_matches_at(scan@, off as int),
{
    scan[off] == 0x48 && scan[off + 1] == 0x8B && scan[off + 2] == 0x1D && scan[off + 7] == 0x48
        && scan[off + 8] == 0x85 && scan[off + 9] == 0xDB && scan[off + 10] == 0x74 && scan[off
        + 12] == 0x41 && scan[off + 13] == 0xB0 && scan[off + 14] == 0x01
}

/// Scans one batch of code bytes, read from image offset `batch_start`, for the
/// first anchor instruction whose target lies inside an image of
/// `size_of_image` bytes, and returns that target as an image offset.
pub fn scan_world_anchor(scan: &[u8], batch_start: u64, size_of_image: u64) -> (r: Option<u64>)
    ensures
        match first_anchor(scan@, batch_start as int, size_of_image as int) {
            Some(rva) => r == Some(rva as u64),
            None => r is None,
        },
{
    if scan.len() < PATTERN_LEN {
        return None;
    }
    let last = scan.len() - PATTERN_LEN;
    let mut off: usize = 0;
    while off <= last
        invariant
            last + PATTERN_LEN == scan@.len(),
            scan@.len() <= usize::MAX,
            off <= last + 1,
            first_anchor(scan@, batch_start as int, size_of_image as int) == first_anchor_from(
                scan@,
                batch_start as int,
                size_of_image as int,
                off as int,
            ),
        decreases last + 1 - off,
    {
        if pattern_at(scan, off) {
            let disp = read_i32(scan, off + 3);
            if let Some(d) = disp {
                let rva: i128 = batch_start as i128 + off as i128 + INSTRUCTION_LEN as i128
                    + d as i128;
                if 0 < rva && rva < size_of_image as i128 {
                    return Some(rva as u64);
                }
            }
        }
        off = off + 1;
    }
    None
}


/// One `.pdata` RUNTIME_FUNCTION reduced to its code range `(begin, end)`.
pub type FunctionRange = (u32, u32);

/// Size of one RUNTIME_FUNCTION record.
pub const RUNTIME_FUNCTION_SIZE: usize = 12;

/// The `(begin, end)` pairs of all whole records in a `.pdata` buffer.
pub open spec fn raw_function_ranges(pdata: Seq<u8>) -> Seq<FunctionRange> {
    Seq::new(
        (pdata.len() / 12) as nat,
        |i: int| (le_u32_at(pdata, i * 12) as u32, le_u32_at(pdata, i * 12 + 4) as u32),
    )
}

/// A record worth scanning: non-empty and inside the image.
pub open spec fn usable_range(r: FunctionRange, size_of_image: int) -> bool {
    r.0 > 0 && r.1 > r.0 && r.1 <= size_of_image
}

/// Sorted by begin address.
pub open spec fn sorted_by_begin(s: Seq<FunctionRange>) -> bool {
    forall|i: int, j: int| 0 <= i <= j < s.len() ==> s[i].0 <= s[j].0
}

/// The usable ranges of `pdata`, in record order.
pub open spec fn usable_ranges(pdata: Seq<u8>, size_of_image: int) -> Seq<FunctionRange> {
    raw_function_ranges(pdata).filter(|r: FunctionRange| usable_range(r, size_of_image))
}

/// Collects the usable code ranges of a `.pdata` buffer, in record order.
pub fn usable_function_ranges(pdata: &[u8], size_of_image: u32) -> (r: Vec<FunctionRange>)
    ensures
        r@ == usable_ranges(pdata@, size_of_image as int),
{
    let entries = pdata.len() / RUNTIME_FUNCTION_SIZE;
    let ghost raw = raw_function_ranges(pdata@);
    let ghost pred = |r: FunctionRange| usable_range(r, size_of_image as int);
    let mut out: Vec<FunctionRange> = Vec::new();
    let mut i: usize = 0;
    while i < entries
        invariant
            entries == pdata@.len() / 12,
            raw == raw_function_ranges(pdata@),
            pdata@.len() <= usize::MAX,
            pred == (|r: FunctionRange| usable_range(r, size_of_image as int)),
            i <= entries,
            out@ == raw.take(i as int).filter(pred),
        decreases entries - i,
    {
        assert(i * 12 + 8 <= pdata@.len()) by (nonlinear_arith)
            requires
                i < entries,
                entries == pdata@.len() / 12,
        ;
        let begin = read_u32(pdata, i * 12);
        let end = read_u32(pdata, i * 12 + 4);
        let b = begin.unwrap();
        let e = end.unwrap();
        proof {
            assert(raw.take(i as int + 1) == raw.take(i as int).push(raw[i as int]));
            raw.take(i as int).lemma_filter_push(raw[i as int], pred);
            assert(raw[i as int] == (b, e));
        }
        if b > 0 && e > b && e <= size_of_image {
            out.push((b, e));
        }
        i = i + 1;
    }
    assert(raw.take(entries as int) == raw);
    out
}

/// Sorts code ranges by begin address (insertion sort; ranges with equal
/// begins keep their order).
pub fn sort_by_begin(ranges: Vec<FunctionRange>) -> (r: Vec<FunctionRange>)
    ensures
        sorted_by_begin(r@),
        r@.to_multiset() == ranges@.to_multiset(),
{
    broadcast use vstd::seq_lib::to_multiset_insert;
    broadcast use vstd::seq_lib::group_to_multiset_ensures;

    let mut out: Vec<FunctionRange> = Vec::new();
    assert(ranges@.take(0) =~= Seq::<FunctionRange>::empty());
    assert(out@ =~= Seq::<FunctionRange>::empty());
    let mut i: usize = 0;
    while i < ranges.len()
        invariant
            i <= ranges@.len(),
            sorted_by_begin(out@),
            out@.to_multiset() == ranges@.take(i as int).to_multiset(),
        decreases ranges@.len() - i,
    {
        let x = ranges[i];
        let mut pos: usize = out.len();
        while pos > 0 && out[pos - 1].0 > x.0
            invariant
                pos <= out@.len(),
                sorted_by_begin(out@),
                forall|k: int| pos <= k < out@.len() ==> out@[k].0 > x.0,
            decreases pos,
        {
            pos = pos - 1;
        }
        let ghost before = out@;
        out.insert(pos, x);
        proof {
            assert(ranges@.take(i as int + 1) == ranges@.take(i as int).push(x));
            assert(ranges@.take(i as int).push(x) == ranges@.take(i as int).insert(
                i as int,
                x,
            ));
            assert(out@ == before.insert(pos as int, x));
            vstd::seq_lib::to_multiset_insert(before, pos as int, x);
            vstd::seq_lib::to_multiset_insert(ranges@.take(i as int), i as int, x);
            assert(sorted_by_begin(out@)) by {
                assert forall|a: int, b: int| 0 <= a <= b < out@.len() implies out@[a].0
                    <= out@[b].0 by {
                    if pos > 0 {
                        assert(before[pos - 1].0 <= x.0);
                    }
                }
            }
        }
        i = i + 1;
    }
    assert(ranges@.take(ranges@.len() as int) == ranges@);
    out
}


/// The three PE header fields the scan needs.
#[derive(Clone, Copy, Debug, PartialEq, Eq)]
pub struct PeLayout {
    /// `OptionalHeader.SizeOfImage`.
    pub size_of_image: u32,
    /// RVA of the exception directory (`.pdata`).
    pub exception_rva: u32,
    /// Size in bytes of the exception directory.
    pub exception_size: u32,
}

/// How many header bytes are read from the module base.
pub const HEADER_READ: usize = 4096;

/// `e_lfanew`, then the fields at `e_lfanew + 0x50` (SizeOfImage) and at
/// `e_lfanew + 160` / `+ 164` (DataDirectory[EXCEPTION]); the header is used
/// only when `e_lfanew + 0x110` lies inside the buffer.
pub open spec fn spec_pe_layout(hdr: Seq<u8>) -> Option<PeLayout> {
    if !fits4(hdr.len() as int, 0x3C) {
        None
    } else {
        let e = le_u32_at(hdr, 0x3C);
        if e + 0x110 > hdr.len() {
            None
        } else {
            Some(
                PeLayout {
                    size_of_image: le_u32_at(hdr, e + 0x50) as u32,
                    exception_rva: le_u32_at(hdr, e + 160) as u32,
                    exception_size: le_u32_at(hdr, e + 164) as u32,
                },
            )
        }
    }
}

/// Reads the PE layout fields out of the first bytes of a mapped image.
pub fn parse_pe_layout(hdr: &[u8]) -> (r: Option<PeLayout>)
    ensures
        r == spec_pe_layout(hdr@),
{
    let e = match read_u32(hdr, 0x3C) {
        Some(e) => e as usize,
        None => return None,
    };
    if e > hdr.len() || hdr.len() - e < 0x110 {
        return None;
    }
    let soi = read_u32(hdr, e + 0x50).unwrap();
    let prva = read_u32(hdr, e + 160).unwrap();
    let psz = read_u32(hdr, e + 164).unwrap();
    Some(PeLayout { size_of_image: soi, exception_rva: prva, exception_size: psz })
}

/// The limits that decide which adjacent functions share one read.
#[derive(Clone, Copy, Debug, PartialEq, Eq)]
pub struct BatchRules {
    /// Largest hole between two functions that still joins them.
    pub max_gap: u64,
    /// Largest span, from the batch start, that a joined function may reach.
    pub max_batch: u64,
    /// Whether distances are taken with a saturating subtraction (an
    /// overlapping function then counts as distance 0) or a wrapping one (an
    /// overlapping function then counts as a huge distance).
    pub saturating: bool,
}

/// Distance from `b` up to `a` under the rules' subtraction.
pub open spec fn distance(a: int, b: int, saturating: bool) -> int {
    if a >= b {
        a - b
    } else if saturating {
        0
    } else {
        a - b + 0x1_0000_0000_0000_0000
    }
}

/// Whether range `k` joins the batch that starts at `start` and currently ends
/// where range `k - 1` ends.
pub open spec fn joins_batch(fs: Seq<FunctionRange>, start: int, k: int, rules: BatchRules) -> bool {
    &&& distance(fs[k].0 as int, fs[k - 1].1 as int, rules.saturating) <= rules.max_gap
    &&& distance(fs[k].1 as int, start, rules.saturating) <= rules.max_batch
}

fn distance_u64(a: u64, b: u64, saturating: bool) -> (r: u64)
    ensures
        r == distance(a as int, b as int, saturating),
{
    if a >= b {
        a - b
    } else if saturating {
        0
    } else {
        a.wrapping_sub(b)
    }
}

/// Plans the batch that starts with range `i`: returns `(start, end, j)` where
/// ranges `i..j` are read together as `[start, end)`. Range `k` joins while it
/// starts within `max_gap` of the previous range's end and ends within
/// `max_batch` of `start`.
pub fn plan_batch(fs: &[FunctionRange], i: usize, rules: BatchRules) -> (r: (u64, u64, usize))
    requires
        i < fs@.len(),
    ensures
        i < r.2 <= fs@.len(),
        r.0 == fs@[i as int].0,
        r.1 == fs@[r.2 - 1].1,
        forall|k: int| i < k < r.2 ==> joins_batch(fs@, r.0 as int, k, rules),
        r.2 < fs@.len() ==> !joins_batch(fs@, r.0 as int, r.2 as int, rules),
{
    let start = fs[i].0 as u64;
    let mut end = fs[i].1 as u64;
    let mut j = i + 1;
    while j < fs.len() && distance_u64(fs[j].0 as u64, end, rules.saturating) <= rules.max_gap
        && distance_u64(fs[j].1 as u64, start, rules.saturating) <= rules.max_batch
        invariant
            i < j <= fs@.len(),
            start == fs@[i as int].0,
            end == fs@[j - 1].1,
            forall|k: int| i < k < j ==> joins_batch(fs@, start as int, k, rules),
        decreases fs@.len() - j,
    {
        end = fs[j].1 as u64;
        j = j + 1;
    }
    (start, end, j)
}


/// Where the batch that starts with range `i` ends, counting up from `m`:
/// the first range from `m` on that does not join it.
pub open spec fn batch_end(fs: Seq<FunctionRange>, i: int, m: int, rules: BatchRules) -> int
    decreases fs.len() - m,
{
    if i < m < fs.len() && joins_batch(fs, fs[i].0 as int, m, rules) {
        batch_end(fs, i, m + 1, rules)
    } else {
        m
    }
}

/// The batch `plan_batch` returns ends where `batch_end` says.
pub proof fn lemma_batch_end(fs: Seq<FunctionRange>, i: int, m: int, j: int, rules: BatchRules)
    requires
        0 <= i < m <= j <= fs.len(),
        forall|k: int| i < k < j ==> joins_batch(fs, fs[i].0 as int, k, rules),
        j < fs.len() ==> !joins_batch(fs, fs[i].0 as int, j, rules),
    ensures
        batch_end(fs, i, m, rules) == j,
    decreases j - m,
{
    if m < j {
        lemma_batch_end(fs, i, m + 1, j, rules);
    }
}

/// Bytes read for a batch spanning `span` bytes, at most `max_read`.
pub open spec fn batch_read_size(span: int, max_read: int) -> int {
    if span <= max_read {
        span
    } else {
        max_read
    }
}

/// The batches from range `i` on, planned by `rules` over the sorted ranges
/// `fs`, can all come back without an anchor: each is skipped for being
/// shorter than `min_read`, or some outcome of its read, at the batch's
/// first begin and of its span cut to `max_read`, is a failure or bytes in
/// which `first_anchor` finds nothing.
pub open spec fn batches_miss<F: Fn(u64, usize) -> Option<Vec<u8>>>(
    read: F,
    base: u64,
    size_of_image: int,
    fs: Seq<FunctionRange>,
    i: int,
    rules: BatchRules,
    max_read: int,
    min_read: int,
) -> bool
    decreases fs.len() - i,
{
    if i < 0 || i >= fs.len() {
        true
    } else {
        let j = batch_end(fs, i, i + 1, rules);
        if j <= i || j > fs.len() {
            false
        } else {
            &&& batch_misses(read, base, size_of_image, fs, i, rules, max_read, min_read)
            &&& batches_miss(read, base, size_of_image, fs, j, rules, max_read, min_read)
        }
    }
}

/// Where the batch starting with range `i` begins, and how many bytes are
/// read for it.
pub open spec fn batch_read_at(fs: Seq<FunctionRange>, i: int, rules: BatchRules, max_read: int) -> (int, int) {
    let j = batch_end(fs, i, i + 1, rules);
    let start = fs[i].0 as int;
    (start, batch_read_size(fs[j - 1].1 - start, max_read))
}

/// The batch starting with range `i` can come back without an anchor: it
/// is too short to scan, or some outcome of its read is a failure or bytes
/// in which `first_anchor` finds nothing.
pub open spec fn batch_misses<F: Fn(u64, usize) -> Option<Vec<u8>>>(
    read: F,
    base: u64,
    size_of_image: int,
    fs: Seq<FunctionRange>,
    i: int,
    rules: BatchRules,
    max_read: int,
    min_read: int,
) -> bool {
    let (start, size) = batch_read_at(fs, i, rules, max_read);
    size < min_read || exists|out: Option<Vec<u8>>|
        #[trigger] read.ensures(((base + start) as u64, size as usize), out) && (out matches Some(b)
            ==> first_anchor(b@, start, size_of_image) is None)
}

/// The batches from range `i` up to range `stop` (a batch start) all came
/// back without an anchor.
pub open spec fn batches_miss_until<F: Fn(u64, usize) -> Option<Vec<u8>>>(
    read: F,
    base: u64,
    size_of_image: int,
    fs: Seq<FunctionRange>,
    i: int,
    stop: int,
    rules: BatchRules,
    max_read: int,
    min_read: int,
) -> bool
    decreases fs.len() - i,
{
    if i == stop {
        true
    } else if i < 0 || i >= fs.len() || i > stop {
        false
    } else {
        let j = batch_end(fs, i, i + 1, rules);
        if j <= i || j > fs.len() {
            false
        } else {
            &&& batch_misses(read, base, size_of_image, fs, i, rules, max_read, min_read)
            &&& batches_miss_until(read, base, size_of_image, fs, j, stop, rules, max_read, min_read)
        }
    }
}

/// The batch starting with range `k` was read as `batch`, in whose bytes
/// `rva` is the first anchor.
pub open spec fn batch_hits<F: Fn(u64, usize) -> Option<Vec<u8>>>(
    read: F,
    base: u64,
    size_of_image: int,
    fs: Seq<FunctionRange>,
    k: int,
    rules: BatchRules,
    max_read: int,
    min_read: int,
    batch: Vec<u8>,
    rva: u64,
) -> bool {
    let (start, size) = batch_read_at(fs, k, rules, max_read);
    &&& 0 <= k < fs.len()
    &&& size >= min_read
    &&& read.ensures(((base + start) as u64, size as usize), Some(batch))
    &&& first_anchor(batch@, start, size_of_image) == Some(rva as int)
}

/// One more missed batch extends a run of missed batches.
pub proof fn lemma_miss_until_extend<F: Fn(u64, usize) -> Option<Vec<u8>>>(
    read: F,
    base: u64,
    size_of_image: int,
    fs: Seq<FunctionRange>,
    a: int,
    i: int,
    rules: BatchRules,
    max_read: int,
    min_read: int,
)
    requires
        0 <= a <= i < fs.len(),
        batches_miss_until(read, base, size_of_image, fs, a, i, rules, max_read, min_read),
        batch_misses(read, base, size_of_image, fs, i, rules, max_read, min_read),
        i < batch_end(fs, i, i + 1, rules) <= fs.len(),
    ensures
        batches_miss_until(
            read,
            base,
            size_of_image,
            fs,
            a,
            batch_end(fs, i, i + 1, rules),
            rules,
            max_read,
            min_read,
        ),
    decreases i - a,
{
    let j = batch_end(fs, i, i + 1, rules);
    if a == i {
        assert(batches_miss_until(read, base, size_of_image, fs, j, j, rules, max_read, min_read));
    } else {
        let ja = batch_end(fs, a, a + 1, rules);
        assert(a < ja <= fs.len());
        assert(batches_miss_until(read, base, size_of_image, fs, ja, i, rules, max_read, min_read));
        assert(ja <= i);
        lemma_miss_until_extend(read, base, size_of_image, fs, ja, i, rules, max_read, min_read);
    }
}

/// Largest single read of the driver's scan, in bytes.
pub const MAX_BATCH: usize = 524288;

/// Joining rules of the driver's scan.
pub fn driver_batch_rules() -> (r: BatchRules)
    ensures
        r == (BatchRules { max_gap: 4096, max_batch: 524288, saturating: true }),
{
    BatchRules { max_gap: 4096, max_batch: 524288, saturating: true }
}

/// The reads a successful scan rests on: the header read at `base`, the
/// `.pdata` read it points to, and one batch read starting at the begin of a
/// usable function range, in whose bytes `rva` is the first anchor.
pub open spec fn anchor_found_via<F: Fn(u64, usize) -> Option<Vec<u8>>>(
    read: F,
    base: u64,
    hdr: Vec<u8>,
    pd: Vec<u8>,
    start: u64,
    batch: Vec<u8>,
    rva: u64,
) -> bool {
    &&& read.ensures((base, HEADER_READ), Some(hdr))
    &&& spec_pe_layout(hdr@) matches Some(l) && {
        &&& l.exception_rva != 0
        &&& l.exception_size >= 12
        &&& read.ensures(
            (
                (base + l.exception_rva) as u64,
                (if l.exception_size <= MAX_BATCH { l.exception_size as usize } else { MAX_BATCH }),
            ),
            Some(pd),
        )
        &&& exists|k: int|
            0 <= k < usable_ranges(pd@, l.size_of_image as int).len() && usable_ranges(
                pd@,
                l.size_of_image as int,
            )[k].0 == start
        &&& batch@.len() >= PATTERN_LEN
        &&& read.ensures(((base + start) as u64, batch@.len() as usize), Some(batch))
        &&& first_anchor(batch@, start as int, l.size_of_image as int) == Some(rva as int)
        &&& 0 < rva < l.size_of_image
    }
}

/// The driver's scan finds `rva` first: the header read as `hdr`, the
/// `.pdata` read as `pd`, an arrangement `fs` of its usable ranges by begin
/// address, every batch before the one starting with range `k` came back
/// without an anchor, and that batch was read as `batch` with `rva` its
/// first anchor.
pub open spec fn anchor_first_via<F: Fn(u64, usize) -> Option<Vec<u8>>>(
    read: F,
    base: u64,
    hdr: Vec<u8>,
    pd: Vec<u8>,
    fs: Seq<FunctionRange>,
    k: int,
    batch: Vec<u8>,
    rva: u64,
) -> bool {
    &&& read.ensures((base, HEADER_READ), Some(hdr))
    &&& spec_pe_layout(hdr@) matches Some(l) && {
        &&& l.exception_rva != 0
        &&& l.exception_size >= 12
        &&& read.ensures(((base + l.exception_rva) as u64, pdata_read_len(l.exception_size)), Some(pd))
        &&& sorted_by_begin(fs)
        &&& fs.to_multiset() == usable_ranges(pd@, l.size_of_image as int).to_multiset()
        &&& batches_miss_until(
            read,
            base,
            l.size_of_image as int,
            fs,
            0,
            k,
            BatchRules { max_gap: 4096, max_batch: 524288, saturating: true },
            MAX_BATCH as int,
            PATTERN_LEN as int,
        )
        &&& batch_hits(
            read,
            base,
            l.size_of_image as int,
            fs,
            k,
            BatchRules { max_gap: 4096, max_batch: 524288, saturating: true },
            MAX_BATCH as int,
            PATTERN_LEN as int,
            batch,
            rva,
        )
    }
}

/// Bytes of `.pdata` the driver reads: the directory's size, at most
/// `MAX_BATCH`.
pub open spec fn pdata_read_len(exception_size: u32) -> usize {
    if exception_size <= MAX_BATCH {
        exception_size as usize
    } else {
        MAX_BATCH
    }
}

/// The `.pdata` read came back as `pd` and, when it holds bytes, some
/// arrangement of its usable ranges by begin address has all its batches
/// come back without an anchor under the driver's rules.
pub open spec fn driver_pdata_misses<F: Fn(u64, usize) -> Option<Vec<u8>>>(
    read: F,
    base: u64,
    size_of_image: int,
    pd: Option<Vec<u8>>,
) -> bool {
    match pd {
        None => true,
        Some(p) => exists|fs: Seq<FunctionRange>|
            sorted_by_begin(fs) && fs.to_multiset() == usable_ranges(p@, size_of_image).to_multiset()
                && #[trigger] batches_miss(
                read,
                base,
                size_of_image,
                fs,
                0,
                BatchRules { max_gap: 4096, max_batch: 524288, saturating: true },
                MAX_BATCH as int,
                PATTERN_LEN as int,
            ),
    }
}

/// The header read came back as `hdr` and leaves the scan without an
/// anchor: it failed, holds no PE layout, names no usable exception
/// directory, or the `.pdata` read behind it misses.
pub open spec fn driver_header_misses<F: Fn(u64, usize) -> Option<Vec<u8>>>(
    read: F,
    base: u64,
    hdr: Option<Vec<u8>>,
) -> bool {
    match hdr {
        None => true,
        Some(h) => match spec_pe_layout(h@) {
            None => true,
            Some(l) => l.exception_rva == 0 || l.exception_size < 12 || exists|pd: Option<Vec<u8>>|
                #[trigger] read.ensures(
                    ((base + l.exception_rva) as u64, pdata_read_len(l.exception_size)),
                    pd,
                ) && driver_pdata_misses(read, base, l.size_of_image as int, pd),
        },
    }
}

/// Some outcomes of the reads of the module at `base` leave the driver's
/// scan without an anchor.
pub open spec fn anchor_not_found<F: Fn(u64, usize) -> Option<Vec<u8>>>(read: F, base: u64) -> bool {
    exists|hdr: Option<Vec<u8>>|
        #[trigger] read.ensures((base, HEADER_READ), hdr) && driver_header_misses(read, base, hdr)
}

/// Finds the image offset of the world anchor in the module mapped at `base`,
/// reading memory through `read(address, length)`: parses the PE header, takes
/// the usable `.pdata` function ranges sorted by begin, reads adjacent
/// functions together in batches, and returns the first anchor found.
pub fn find_hardcoded_world_anchor(base: u64, read: impl Fn(u64, usize) -> Option<Vec<u8>>) -> (r:
    Option<u64>)
    requires
        base <= 0x7FFF_FFFF_FFFF,
        forall|a: u64, n: usize| read.requires((a, n)),
        forall|a: u64, n: usize, out: Option<Vec<u8>>|
            read.ensures((a, n), out) ==> (out matches Some(v) ==> v@.len() == n),
    ensures
        r matches Some(rva) ==> exists|hdr: Vec<u8>, pd: Vec<u8>, start: u64, batch: Vec<u8>|
            anchor_found_via(read, base, hdr, pd, start, batch, rva),
        r matches Some(rva) ==> exists|hdr: Vec<u8>, pd: Vec<u8>, fs: Seq<FunctionRange>, k: int, batch: Vec<u8>|
            #[trigger] anchor_first_via(read, base, hdr, pd, fs, k, batch, rva),
        r is None ==> anchor_not_found(read, base),
{
    broadcast use vstd::seq_lib::group_to_multiset_ensures;

    let hdr_out = read(base, HEADER_READ);
    let ghost hdr_seen = hdr_out;
    let hdr = match hdr_out {
        Some(h) => h,
        None => {
            assert(driver_header_misses(read, base, hdr_seen));
            return None;
        },
    };
    let layout = match parse_pe_layout(hdr.as_slice()) {
        Some(l) => l,
        None => {
            assert(driver_header_misses(read, base, hdr_seen));
            return None;
        },
    };
    if layout.exception_rva == 0 || layout.exception_size < 12 {
        assert(driver_header_misses(read, base, hdr_seen));
        return None;
    }
    let pread: usize = if (layout.exception_size as usize) <= MAX_BATCH {
        layout.exception_size as usize
    } else {
        MAX_BATCH
    };
    let pd_out = read(base + layout.exception_rva as u64, pread);
    let ghost pd_seen = pd_out;
    let pd = match pd_out {
        Some(p) => p,
        None => {
            assert(driver_pdata_misses(read, base, layout.size_of_image as int, pd_seen));
            assert(driver_header_misses(read, base, hdr_seen));
            return None;
        },
    };
    let soi = layout.size_of_image;
    let usable = usable_function_ranges(pd.as_slice(), soi);
    let fs = sort_by_begin(usable);
    proof {
        let ghost pred = |r: FunctionRange| usable_range(r, soi as int);
        assert forall|k: int| 0 <= k < fs@.len() implies fs@[k].1 > fs@[k].0 by {
            assert(fs@.contains(fs@[k]));
            vstd::seq_lib::to_multiset_contains(fs@, fs@[k]);
            vstd::seq_lib::to_multiset_contains(usable@, fs@[k]);
            let m = choose|m: int| 0 <= m < usable@.len() && usable@[m] == fs@[k];
            raw_function_ranges(pd@).lemma_filter_pred(pred, m);
        }
    }
    let rules = driver_batch_rules();
    let mut i: usize = 0;
    while i < fs.len()
        invariant
            base <= 0x7FFF_FFFF_FFFF,
            forall|a: u64, n: usize| read.requires((a, n)),
            forall|a: u64, n: usize, out: Option<Vec<u8>>|
                read.ensures((a, n), out) ==> (out matches Some(v) ==> v@.len() == n),
            read.ensures((base, HEADER_READ), Some(hdr)),
            hdr_seen == Some(hdr),
            pd_seen == Some(pd),
            spec_pe_layout(hdr@) == Some(layout),
            layout.exception_rva != 0,
            layout.exception_size >= 12,
            pread == (if layout.exception_size <= MAX_BATCH {
                layout.exception_size as usize
            } else {
                MAX_BATCH
            }),
            read.ensures(((base + layout.exception_rva) as u64, pread), Some(pd)),
            soi == layout.size_of_image,
            fs@.to_multiset() == usable_ranges(pd@, soi as int).to_multiset(),
            forall|k: int| 0 <= k < fs@.len() ==> fs@[k].1 > fs@[k].0,
            sorted_by_begin(fs@),
            rules == (BatchRules { max_gap: 4096, max_batch: 524288, saturating: true }),
            i <= fs@.len(),
            batches_miss(read, base, soi as int, fs@, i as int, rules, MAX_BATCH as int, PATTERN_LEN as int)
                ==> batches_miss(read, base, soi as int, fs@, 0, rules, MAX_BATCH as int, PATTERN_LEN as int),
            batches_miss_until(read, base, soi as int, fs@, 0, i as int, rules, MAX_BATCH as int, PATTERN_LEN as int),
        decreases fs@.len() - i,
    {
        let (start, end, j) = plan_batch(fs.as_slice(), i, rules);
        proof {
            assert(fs@[j - 1].0 >= fs@[i as int].0);
            assert(fs@[j - 1].1 > fs@[j - 1].0);
            lemma_batch_end(fs@, i as int, i as int + 1, j as int, rules);
        }
        let span = end - start;
        let read_size: usize = if span <= MAX_BATCH as u64 {
            span as usize
        } else {
            MAX_BATCH
        };
        if read_size >= PATTERN_LEN {
            let batch_out = read(base + start, read_size);
            let ghost batch_seen = batch_out;
            if let Some(batch) = batch_out {
                if let Some(rva) = scan_world_anchor(batch.as_slice(), start, soi as u64) {
                    proof {
                        let ghost usable_seq = usable_ranges(pd@, soi as int);
                        assert(fs@.contains(fs@[i as int]));
                        vstd::seq_lib::to_multiset_contains(fs@, fs@[i as int]);
                        vstd::seq_lib::to_multiset_contains(usable_seq, fs@[i as int]);
                        let k = choose|k: int| 0 <= k < usable_seq.len() && usable_seq[k] == fs@[i as int];
                        assert(usable_seq[k].0 == start);
                        let ghost fa = first_anchor(batch@, start as int, soi as int);
                        lemma_first_anchor_sound(batch@, start as int, soi as int, 0);
                        assert(anchor_found_via(read, base, hdr, pd, start, batch, rva));
                        assert(batch_read_at(fs@, i as int, rules, MAX_BATCH as int) == (start as int, read_size as int));
                        assert(batch_hits(read, base, soi as int, fs@, i as int, rules, MAX_BATCH as int, PATTERN_LEN as int, batch, rva));
                        assert(anchor_first_via(read, base, hdr, pd, fs@, i as int, batch, rva));
                    }
                    return Some(rva);
                }
            }
            assert(read.ensures(((base + start) as u64, read_size), batch_seen));
        }
        proof {
            assert(batch_read_at(fs@, i as int, rules, MAX_BATCH as int) == (start as int, read_size as int));
            assert(batch_misses(read, base, soi as int, fs@, i as int, rules, MAX_BATCH as int, PATTERN_LEN as int));
            lemma_miss_until_extend(read, base, soi as int, fs@, 0, i as int, rules, MAX_BATCH as int, PATTERN_LEN as int);
        }
        i = j;
    }
    proof {
        assert(batches_miss(read, base, soi as int, fs@, 0, rules, MAX_BATCH as int, PATTERN_LEN as int));
        assert(driver_pdata_misses(read, base, soi as int, pd_seen));
        assert(driver_header_misses(read, base, hdr_seen));
    }
    None
}

} // verus!
