//! The macOS process reader's logic: reading C strings out of the game's
//! memory, finding the main executable in dyld's image list, turning the
//! `_GWorld` symbol's file address into a runtime one, and the symbol cache.

use vstd::prelude::*;
use vstd::string::*;
use crate::text::{decimal, decimal_string, hex_upper, hex_upper_string};

verus! {

/// The address the main executable is linked at; the difference to where
/// it is loaded is the ASLR slide.
pub const MACH_EXECUTE_BASE_VMADDR: u64 = 0x1_0000_0000;

/// The symbol holding the world pointer.
pub const GWORLD_SYMBOL_NAME: &'static str = "_GWorld";

/// The longest image path read from the game's memory.
pub const MAX_REMOTE_PATH_LEN: usize = 4096;

/// Bytes read from the game's memory at a time when reading a string.
pub const REMOTE_CHUNK: usize = 256;

/// Bytes of one dyld image record (load address, path pointer, date).
pub const DYLD_IMAGE_INFO_SIZE: u64 = 24;

/// The text of `bytes` decoded as UTF-8 with every invalid sequence replaced
/// by U+FFFD.
pub uninterp spec fn utf8_lossy(bytes: Seq<u8>) -> Seq<char>;

/// Calls `String::from_utf8_lossy`. Its documentation fixes the result as
/// the decoding of `bytes` with invalid sequences replaced; the contract
/// names that result and states the one case used here: ASCII bytes decode
/// to the same characters.
#[verifier::external_body]
fn lossy_string(bytes: &[u8]) -> (r: String)
    ensures
        r@ == utf8_lossy(bytes@),
        (forall|i: int| 0 <= i < bytes@.len() ==> bytes@[i] < 0x80) ==> r@ == bytes@.map_values(
            |b: u8| b as char,
        ),
{
    String::from_utf8_lossy(bytes).into_owned()
}

/// `a + b` modulo 2^64.
pub open spec fn add_wrap(a: int, b: int) -> u64 {
    ((a + b) % 0x1_0000_0000_0000_0000) as u64
}

/// No byte of `s` is zero.
pub open spec fn nul_free(s: Seq<u8>) -> bool {
    forall|i: int| 0 <= i < s.len() ==> s[i] != 0
}

/// `p` is the first zero byte of `s`.
pub open spec fn first_nul_at(s: Seq<u8>, p: int) -> bool {
    0 <= p < s.len() && s[p] == 0 && nul_free(s.take(p))
}

/// The views of a list of byte vectors.
pub open spec fn chunk_views(chunks: Seq<Vec<u8>>) -> Seq<Seq<u8>> {
    chunks.map_values(|c: Vec<u8>| c@)
}

/// Reading a C string at `address` went through `chunks`: each was read at
/// its place (wrapping around the address space), all but the last hold no
/// zero byte, the last one's first zero is at `p`, and fewer than `max_len`
/// bytes had been collected before the last read.
pub open spec fn c_string_chunks<F: Fn(u64) -> Result<Vec<u8>, String>>(
    read_chunk: F,
    address: u64,
    max_len: usize,
    chunks: Seq<Vec<u8>>,
    p: int,
) -> bool {
    &&& chunks.len() >= 1
    &&& forall|i: int|
        0 <= i < chunks.len() ==> read_chunk.ensures(
            (add_wrap(address as int, REMOTE_CHUNK * i),),
            Ok::<Vec<u8>, String>(#[trigger] chunks[i]),
        )
    &&& forall|i: int| 0 <= i < chunks.len() - 1 ==> nul_free(#[trigger] chunks[i]@)
    &&& first_nul_at(chunks.last()@, p)
    &&& REMOTE_CHUNK * (chunks.len() - 1) < max_len
}

/// The bytes of such a C string: every chunk but the last, then the last up
/// to its first zero.
pub open spec fn c_string_bytes(chunks: Seq<Vec<u8>>, p: int) -> Seq<u8> {
    chunk_views(chunks.drop_last()).flatten() + chunks.last()@.take(p)
}

/// `s` is a C string read from `address` through `read_chunk`.
pub open spec fn remote_c_string<F: Fn(u64) -> Result<Vec<u8>, String>>(
    read_chunk: F,
    address: u64,
    max_len: usize,
    s: Seq<char>,
) -> bool {
    exists|chunks: Seq<Vec<u8>>, p: int|
        c_string_chunks(read_chunk, address, max_len, chunks, p) && s == utf8_lossy(
            c_string_bytes(chunks, p),
        )
}

/// Reading a C string at `address` went through `chunks` without meeting a
/// terminator, and they already hold `max_len` bytes or more.
pub open spec fn c_string_overflows<F: Fn(u64) -> Result<Vec<u8>, String>>(
    read_chunk: F,
    address: u64,
    max_len: usize,
    chunks: Seq<Vec<u8>>,
) -> bool {
    &&& forall|i: int|
        0 <= i < chunks.len() ==> read_chunk.ensures(
            (add_wrap(address as int, REMOTE_CHUNK * i),),
            Ok::<Vec<u8>, String>(#[trigger] chunks[i]),
        )
    &&& forall|i: int| 0 <= i < chunks.len() ==> nul_free(#[trigger] chunks[i]@)
    &&& REMOTE_CHUNK * chunks.len() >= max_len
}

/// A chunk read at `address` failed.
pub open spec fn chunk_read_failed<F: Fn(u64) -> Result<Vec<u8>, String>>(read_chunk: F, address: u64) -> bool {
    exists|e: String| read_chunk.ensures((address,), Err::<Vec<u8>, String>(e))
}

/// The error of a failed chunk read at `address`.
pub open spec fn string_read_error_text(address: u64) -> Seq<char> {
    "원격 문자열 읽기 실패: "@ + hex_upper(address as nat)
}

/// The error of a string without a terminator within the limit.
pub open spec fn string_too_long_text() -> Seq<char> {
    "원격 문자열이 너무 깁니다."@
}

fn find_nul(chunk: &Vec<u8>) -> (r: Option<usize>)
    ensures
        r matches Some(p) ==> first_nul_at(chunk@, p as int),
        r is None ==> nul_free(chunk@),
{
    let mut i: usize = 0;
    while i < chunk.len()
        invariant
            i <= chunk@.len(),
            nul_free(chunk@.take(i as int)),
        decreases chunk@.len() - i,
    {
        if chunk[i] == 0 {
            return Some(i);
        }
        assert(chunk@.take(i + 1) =~= chunk@.take(i as int).push(chunk@[i as int]));
        i = i + 1;
    }
    assert(chunk@.take(i as int) =~= chunk@);
    None
}

/// Reads a NUL-terminated string of the game's memory at `address`, 256
/// bytes at a time through `read_chunk`, giving up once `max_len` bytes
/// hold no terminator. Invalid UTF-8 is replaced.
pub fn read_remote_c_string(
    address: u64,
    max_len: usize,
    read_chunk: &impl Fn(u64) -> Result<Vec<u8>, String>,
) -> (r: Result<String, String>)
    requires
        max_len <= usize::MAX - REMOTE_CHUNK,
        forall|a: u64| read_chunk.requires((a,)),
        forall|a: u64, out: Result<Vec<u8>, String>|
            read_chunk.ensures((a,), out) ==> (out matches Ok(v) ==> v@.len() == REMOTE_CHUNK),
    ensures
        r matches Ok(s) ==> remote_c_string(*read_chunk, address, max_len, s@),
        r matches Err(m) ==> (m@ == string_too_long_text() && exists|chunks: Seq<Vec<u8>>|
            #[trigger] c_string_overflows(*read_chunk, address, max_len, chunks)) || exists|a: u64|
            m@ == #[trigger] string_read_error_text(a) && chunk_read_failed(*read_chunk, a),
{
    let mut bytes: Vec<u8> = Vec::new();
    let mut current = address;
    let ghost mut chunks: Seq<Vec<u8>> = Seq::empty();
    while bytes.len() < max_len
        invariant
            max_len <= usize::MAX - REMOTE_CHUNK,
            forall|a: u64| read_chunk.requires((a,)),
            forall|a: u64, out: Result<Vec<u8>, String>|
                read_chunk.ensures((a,), out) ==> (out matches Ok(v) ==> v@.len() == REMOTE_CHUNK),
            bytes@ == chunk_views(chunks).flatten(),
            bytes@.len() == REMOTE_CHUNK * chunks.len(),
            bytes@.len() < max_len + REMOTE_CHUNK,
            current == add_wrap(address as int, REMOTE_CHUNK * chunks.len()),
            forall|i: int|
                0 <= i < chunks.len() ==> read_chunk.ensures(
                    (add_wrap(address as int, REMOTE_CHUNK * i),),
                    Ok::<Vec<u8>, String>(#[trigger] chunks[i]),
                ),
            forall|i: int| 0 <= i < chunks.len() ==> nul_free(#[trigger] chunks[i]@),
        decreases max_len + REMOTE_CHUNK - bytes@.len(),
    {
        let chunk = match read_chunk(current) {
            Ok(c) => c,
            Err(e) => {
                let mut m = String::from_str("원격 문자열 읽기 실패: ");
                m.append(hex_upper_string(current).as_str());
                assert(m@ == string_read_error_text(current));
                assert(read_chunk.ensures((current,), Err::<Vec<u8>, String>(e)));
                assert(chunk_read_failed(*read_chunk, current));
                return Err(m);
            },
        };
        match find_nul(&chunk) {
            Some(p) => {
                let ghost all = chunks.push(chunk);
                let mut k: usize = 0;
                while k < p
                    invariant
                        k <= p < chunk@.len(),
                        bytes@ == chunk_views(chunks).flatten() + chunk@.take(k as int),
                    decreases p - k,
                {
                    bytes.push(chunk[k]);
                    assert(chunk@.take(k + 1) =~= chunk@.take(k as int).push(chunk@[k as int]));
                    k = k + 1;
                }
                proof {
                    assert(all.drop_last() =~= chunks);
                    assert(all.last() == chunk);
                    assert forall|i: int| 0 <= i < all.len() implies read_chunk.ensures(
                        (add_wrap(address as int, REMOTE_CHUNK * i),),
                        Ok::<Vec<u8>, String>(#[trigger] all[i]),
                    ) by {
                        if i < chunks.len() {
                            assert(all[i] == chunks[i]);
                        }
                    }
                    assert forall|i: int| 0 <= i < all.len() - 1 implies nul_free(#[trigger] all[i]@) by {
                        assert(all[i] == chunks[i]);
                    }
                    assert(c_string_chunks(*read_chunk, address, max_len, all, p as int));
                    assert(bytes@ == c_string_bytes(all, p as int));
                }
                let s = lossy_string(bytes.as_slice());
                assert(remote_c_string(*read_chunk, address, max_len, s@));
                return Ok(s);
            },
            None => {
                let ghost before = chunks;
                let mut k: usize = 0;
                while k < chunk.len()
                    invariant
                        k <= chunk@.len(),
                        chunk@.len() == REMOTE_CHUNK,
                        bytes@ == chunk_views(before).flatten() + chunk@.take(k as int),
                    decreases chunk@.len() - k,
                {
                    bytes.push(chunk[k]);
                    assert(chunk@.take(k + 1) =~= chunk@.take(k as int).push(chunk@[k as int]));
                    k = k + 1;
                }
                proof {
                    chunks = chunks.push(chunk);
                    assert(chunk_views(chunks) =~= chunk_views(before).push(chunk@));
                    chunk_views(before).lemma_flatten_push(chunk@);
                    assert(chunk@.take(REMOTE_CHUNK as int) =~= chunk@);
                    assert forall|i: int| 0 <= i < chunks.len() implies read_chunk.ensures(
                        (add_wrap(address as int, REMOTE_CHUNK * i),),
                        Ok::<Vec<u8>, String>(#[trigger] chunks[i]),
                    ) by {
                        if i < before.len() {
                            assert(chunks[i] == before[i]);
                        }
                    }
                    assert forall|i: int| 0 <= i < chunks.len() implies nul_free(#[trigger] chunks[i]@) by {
                        if i < before.len() {
                            assert(chunks[i] == before[i]);
                        }
                    }
                }
                current = current.wrapping_add(REMOTE_CHUNK as u64);
                proof {
                    assert(add_wrap(address as int, REMOTE_CHUNK * chunks.len()) == add_wrap(
                        add_wrap(address as int, REMOTE_CHUNK * before.len()) as int,
                        REMOTE_CHUNK as int,
                    ));
                }
            },
        }
    }
    assert(c_string_overflows(*read_chunk, address, max_len, chunks));
    Err(String::from_str("원격 문자열이 너무 깁니다."))
}

/// The file address of a symbol moved by the slide between where the main
/// executable is loaded and where it is linked; `None` when the load address
/// lies below the link address or the sum overflows.
pub open spec fn runtime_address(load_addr: u64, file_addr: u64) -> Option<u64> {
    if load_addr < MACH_EXECUTE_BASE_VMADDR {
        None
    } else if file_addr + (load_addr - MACH_EXECUTE_BASE_VMADDR) > u64::MAX {
        None
    } else {
        Some((file_addr + (load_addr - MACH_EXECUTE_BASE_VMADDR)) as u64)
    }
}

/// Moves the `_GWorld` symbol's file address to where the running image
/// has it.
pub fn runtime_symbol_address(load_addr: u64, file_addr: u64) -> (r: Result<u64, String>)
    ensures
        runtime_address(load_addr, file_addr) matches Some(a) ==> r == Ok::<u64, String>(a),
        load_addr < MACH_EXECUTE_BASE_VMADDR ==> (r matches Err(m) && m@ == "잘못된 Mach-O Load Address: "@
            + hex_upper(load_addr as nat)),
        load_addr >= MACH_EXECUTE_BASE_VMADDR && runtime_address(load_addr, file_addr) is None
            ==> (r matches Err(m) && m@ == "_GWorld 런타임 주소 계산 overflow"@),
{
    let slide = match load_addr.checked_sub(MACH_EXECUTE_BASE_VMADDR) {
        Some(s) => s,
        None => {
            let mut m = String::from_str("잘못된 Mach-O Load Address: ");
            m.append(hex_upper_string(load_addr).as_str());
            return Err(m);
        },
    };
    match file_addr.checked_add(slide) {
        Some(a) => Ok(a),
        None => Err(String::from_str("_GWorld 런타임 주소 계산 overflow")),
    }
}

/// A lower-case hexadecimal digit.
pub open spec fn lower_hex_digit(d: nat) -> char {
    if d < 10 {
        ((d + 48) as u8) as char
    } else {
        ((d + 87) as u8) as char
    }
}

/// Bytes as lower-case hexadecimal, two digits each.
pub open spec fn hex_pairs(bytes: Seq<u8>) -> Seq<char>
    decreases bytes.len(),
{
    if bytes.len() == 0 {
        Seq::empty()
    } else {
        hex_pairs(bytes.drop_last()) + seq![
            lower_hex_digit((bytes.last() / 16) as nat),
            lower_hex_digit((bytes.last() % 16) as nat),
        ]
    }
}

fn lower_hex_digit_str(d: u8) -> (r: &'static str)
    requires
        d < 16,
    ensures
        r@ == seq![lower_hex_digit(d as nat)],
{
    let digits = "0123456789abcdef";
    proof {
        reveal_strlit("0123456789abcdef");
        if d < 10 {
            assert(((d + 48) as u8) as char as int == d + 48);
        } else {
            assert(((d + 87) as u8) as char as int == d + 87);
        }
    }
    let r = digits.substring_char(d as usize, d as usize + 1);
    assert(r@ =~= seq![lower_hex_digit(d as nat)]);
    r
}

/// A Mach-O UUID as the cache stores it: each byte as two lower-case
/// hexadecimal digits.
pub fn uuid_hex(bytes: &[u8]) -> (r: String)
    ensures
        r@ == hex_pairs(bytes@),
{
    let mut s = String::new();
    let mut i: usize = 0;
    while i < bytes.len()
        invariant
            i <= bytes@.len(),
            s@ == hex_pairs(bytes@.take(i as int)),
        decreases bytes@.len() - i,
    {
        let b = bytes[i];
        s.append(lower_hex_digit_str(b / 16));
        s.append(lower_hex_digit_str(b % 16));
        proof {
            let t = bytes@.take(i + 1);
            assert(t.drop_last() =~= bytes@.take(i as int));
            assert(t.last() == b);
        }
        i = i + 1;
    }
    assert(bytes@.take(i as int) =~= bytes@);
    s
}

/// Position of the last `/` in `p`, or -1 when it has none.
pub open spec fn last_slash(p: Seq<char>) -> int
    decreases p.len(),
{
    if p.len() == 0 {
        -1
    } else if p.last() == '/' {
        p.len() - 1
    } else {
        last_slash(p.drop_last())
    }
}

/// `last_slash` lies inside `p`, on a `/`, with no `/` after it.
pub proof fn lemma_last_slash_bounds(p: Seq<char>)
    ensures
        -1 <= last_slash(p) < p.len(),
        p.len() > 0 && p.last() != '/' ==> last_slash(p) < p.len() - 1,
        last_slash(p) >= 0 ==> p[last_slash(p)] == '/',
        forall|t: int| last_slash(p) < t < p.len() ==> p[t] != '/',
    decreases p.len(),
{
    if p.len() > 0 && p.last() != '/' {
        lemma_last_slash_bounds(p.drop_last());
        assert forall|t: int| last_slash(p) < t < p.len() implies p[t] != '/' by {
            if t < p.len() - 1 {
                assert(p[t] == p.drop_last()[t]);
            }
        }
    }
}

/// The final component of a path under the Unix path rules of std's
/// `Path::file_name` (the rules on macOS, where the game's images are
/// looked up): trailing `/` and `.` components are passed over, a path
/// whose last component is `..` or that has none gives `None`, and
/// otherwise the text after the last `/` is the name.
pub open spec fn unix_file_name(p: Seq<char>) -> Option<Seq<char>>
    decreases p.len(),
{
    if p.len() == 0 {
        None
    } else if p.last() == '/' {
        unix_file_name(p.drop_last())
    } else {
        proof {
            lemma_last_slash_bounds(p);
        }
        let k = last_slash(p);
        let seg = p.subrange(k + 1, p.len() as int);
        if seg == seq!['.'] {
            unix_file_name(p.subrange(0, k + 1))
        } else if seg == seq!['.', '.'] {
            None
        } else {
            Some(seg)
        }
    }
}

proof fn lemma_last_slash_at(p: Seq<char>, j: int)
    requires
        0 <= j <= p.len(),
        forall|t: int| j <= t < p.len() ==> p[t] != '/',
        j == 0 || p[j - 1] == '/',
    ensures
        last_slash(p) == j - 1,
    decreases p.len(),
{
    if p.len() > j {
        assert(p.last() == p[p.len() - 1]);
        lemma_last_slash_at(p.drop_last(), j);
        if j > 0 {
            assert(p.drop_last()[j - 1] == p[j - 1]);
        }
    }
}

/// The final component of `path` under Unix path rules (see
/// `unix_file_name`).
pub fn file_name(path: &str) -> (r: Option<String>)
    ensures
        opt_view(r) == unix_file_name(path@),
{
    let mut end = path.unicode_len();
    assert(path@.take(end as int) =~= path@);
    loop
        invariant
            end <= path@.len(),
            unix_file_name(path@.take(end as int)) == unix_file_name(path@),
        decreases end,
    {
        let ghost p = path@.take(end as int);
        if end == 0 {
            return None;
        }
        if path.get_char(end - 1) == '/' {
            assert(p.drop_last() =~= path@.take(end - 1));
            end = end - 1;
        } else {
            let mut j = end - 1;
            while j > 0 && path.get_char(j - 1) != '/'
                invariant
                    j < end <= path@.len(),
                    forall|t: int| j <= t < end ==> path@[t] != '/',
                decreases j,
            {
                j = j - 1;
            }
            proof {
                assert forall|t: int| j <= t < p.len() implies p[t] != '/' by {
                    assert(p[t] == path@[t]);
                }
                if j > 0 {
                    assert(p[j - 1] == path@[j - 1]);
                }
                lemma_last_slash_at(p, j as int);
                assert(p.last() == path@[end - 1]);
            }
            let seg = path.substring_char(j, end);
            assert(seg@ =~= p.subrange(j as int, p.len() as int));
            let n = seg.unicode_len();
            if n == 1 && seg.get_char(0) == '.' {
                assert(seg@ =~= seq!['.']);
                assert(p.subrange(0, j as int) =~= path@.take(j as int));
                end = j;
            } else if n == 2 && seg.get_char(0) == '.' && seg.get_char(1) == '.' {
                assert(seg@ =~= seq!['.', '.']);
                return None;
            } else {
                assert(seg@ != seq!['.']) by {
                    if seg@ == seq!['.'] {
                        assert(seg@[0] == '.');
                    }
                }
                assert(seg@ != seq!['.', '.']) by {
                    if seg@ == seq!['.', '.'] {
                        assert(seg@[0] == '.' && seg@[1] == '.');
                    }
                }
                return Some(String::from_str(seg));
            }
        }
    }
}

/// Where the `i`-th record of dyld's image list lies.
pub open spec fn image_record_address(info_array: u64, i: int) -> u64 {
    add_wrap(info_array as int, DYLD_IMAGE_INFO_SIZE * i)
}

/// The image list is empty.
pub open spec fn empty_image_list_text() -> Seq<char> {
    "dyld image list가 비어 있습니다."@
}

/// No image of the list is the main executable.
pub open spec fn main_image_not_found_text() -> Seq<char> {
    "dyld image list에서 main executable load address를 찾지 못했습니다."@
}

/// A path names the main executable: by the same full path (`exact`), or
/// by the same file name.
pub open spec fn names_main_image(process_path: Seq<char>, path: Seq<char>, exact: bool) -> bool {
    if exact {
        path == process_path
    } else {
        unix_file_name(process_path) is Some && unix_file_name(path) == unix_file_name(process_path)
    }
}

/// The load address of the first image from `i` on whose path names the
/// main executable in the `exact` sense.
pub open spec fn first_main_match(
    process_path: Seq<char>,
    images: Seq<(u64, Option<Seq<char>>)>,
    i: int,
    exact: bool,
) -> Option<u64>
    decreases images.len() - i,
{
    if i < 0 || i >= images.len() {
        None
    } else if images[i].1 matches Some(p) && names_main_image(process_path, p, exact) {
        Some(images[i].0)
    } else {
        first_main_match(process_path, images, i + 1, exact)
    }
}

/// Where the main executable is loaded, among images given as
/// `(load address, path)` (no path for a record that is skipped): the first
/// with exactly the process's path, else the first with its file name.
pub open spec fn spec_main_load(process_path: Seq<char>, images: Seq<(u64, Option<Seq<char>>)>) -> Option<u64> {
    match first_main_match(process_path, images, 0, true) {
        Some(l) => Some(l),
        None => first_main_match(process_path, images, 0, false),
    }
}

/// The view of an image list.
pub open spec fn images_view(images: Seq<(u64, Option<String>)>) -> Seq<(u64, Option<Seq<char>>)> {
    images.map_values(|e: (u64, Option<String>)| (e.0, opt_view(e.1)))
}

/// Picks the main executable's load address out of the images read: the
/// first with exactly `process_path`, else the first with its file name.
pub fn main_image_load(process_path: &str, images: &[(u64, Option<String>)]) -> (r: Option<u64>)
    ensures
        r == spec_main_load(process_path@, images_view(images@)),
{
    let ghost v = images_view(images@);
    let wanted = String::from_str(process_path);
    let wanted_name = file_name(process_path);
    let mut exact: bool = true;
    loop
        invariant
            v == images_view(images@),
            v.len() == images@.len(),
            wanted@ == process_path@,
            opt_view(wanted_name) == unix_file_name(process_path@),
            !exact ==> first_main_match(process_path@, v, 0, true) is None,
        decreases (if exact { 1int } else { 0int }),
    {
        let mut i: usize = 0;
        while i < images.len()
            invariant
                v == images_view(images@),
                v.len() == images@.len(),
                wanted@ == process_path@,
                opt_view(wanted_name) == unix_file_name(process_path@),
                i <= images@.len(),
                !exact ==> first_main_match(process_path@, v, 0, true) is None,
                first_main_match(process_path@, v, i as int, exact) == first_main_match(process_path@, v, 0, exact),
            decreases images@.len() - i,
        {
            assert(v[i as int] == (images@[i as int].0, opt_view(images@[i as int].1)));
            if let Some(p) = &images[i].1 {
                let hit = if exact {
                    *p == wanted
                } else {
                    match &wanted_name {
                        Some(wn) => match file_name(p.as_str()) {
                            Some(n) => n == *wn,
                            None => false,
                        },
                        None => false,
                    }
                };
                assert(hit == names_main_image(process_path@, p@, exact));
                if hit {
                    assert(first_main_match(process_path@, v, i as int, exact) == Some(images@[i as int].0));
                    return Some(images[i].0);
                }
            }
            i = i + 1;
        }
        if !exact {
            return None;
        }
        exact = false;
    }
}

/// Record `i` of the list was read as `image`: its load address, and the
/// path read from its path pointer, or no path when the address or the
/// pointer is 0 (the record is then skipped).
pub open spec fn image_read_as<F: Fn(u64) -> Result<(u64, u64), String>, G: Fn(u64) -> Result<Vec<u8>, String>>(
    read_image: F,
    read_chunk: G,
    info_array: u64,
    i: int,
    image: (u64, Option<Seq<char>>),
) -> bool {
    exists|ptr: u64|
        #[trigger] read_image.ensures((image_record_address(info_array, i),), Ok::<(u64, u64), String>((image.0, ptr)))
            && if image.0 == 0 || ptr == 0 {
            image.1 is None
        } else {
            image.1 matches Some(p) && remote_c_string(read_chunk, ptr, MAX_REMOTE_PATH_LEN, p)
        }
}

/// The first `images.len()` records of the list were read as `images`.
pub open spec fn images_read<F: Fn(u64) -> Result<(u64, u64), String>, G: Fn(u64) -> Result<Vec<u8>, String>>(
    read_image: F,
    read_chunk: G,
    info_array: u64,
    images: Seq<(u64, Option<Seq<char>>)>,
) -> bool {
    forall|i: int|
        0 <= i < images.len() ==> #[trigger] image_read_as(read_image, read_chunk, info_array, i, images[i])
}

/// Reading record `i` failed with the text `m`: the record itself, or the
/// path it points to.
pub open spec fn image_read_failed<F: Fn(u64) -> Result<(u64, u64), String>, G: Fn(u64) -> Result<Vec<u8>, String>>(
    read_image: F,
    read_chunk: G,
    info_array: u64,
    i: int,
    m: Seq<char>,
) -> bool {
    ||| exists|e: String|
        #[trigger] read_image.ensures((image_record_address(info_array, i),), Err::<(u64, u64), String>(e))
            && e@ == m
    ||| exists|load: u64, ptr: u64|
        #[trigger] read_image.ensures((image_record_address(info_array, i),), Ok::<(u64, u64), String>((load, ptr)))
            && load != 0 && ptr != 0 && ((m == string_too_long_text() && exists|chunks: Seq<Vec<u8>>|
            #[trigger] c_string_overflows(read_chunk, ptr, MAX_REMOTE_PATH_LEN, chunks)) || exists|a: u64|
            m == #[trigger] string_read_error_text(a) && chunk_read_failed(read_chunk, a))
}

/// Finds where the main executable is loaded, walking dyld's image list of
/// `info_array_count` records at `info_array`: `read_image(address)` reads a
/// record's load address and path pointer, `read_chunk` reads the game's
/// memory for the path. An image with exactly the process's path wins at
/// once; otherwise the first one with the same file name is taken. A read
/// that fails ends the walk with its error.
pub fn load_address(
    process_path: &str,
    info_array_count: u32,
    info_array: u64,
    read_image: &impl Fn(u64) -> Result<(u64, u64), String>,
    read_chunk: &impl Fn(u64) -> Result<Vec<u8>, String>,
) -> (r: Result<u64, String>)
    requires
        forall|a: u64| read_image.requires((a,)),
        forall|a: u64| read_chunk.requires((a,)),
        forall|a: u64, out: Result<Vec<u8>, String>|
            read_chunk.ensures((a,), out) ==> (out matches Ok(v) ==> v@.len() == REMOTE_CHUNK),
    ensures
        info_array_count == 0 || info_array == 0 ==> (r matches Err(m) && m@ == empty_image_list_text()),
        info_array_count > 0 && info_array != 0 ==> (r matches Ok(load) ==> exists|images: Seq<(u64, Option<Seq<char>>)>|
            #[trigger] images_read(*read_image, *read_chunk, info_array, images) && images.len() <= info_array_count
                && spec_main_load(process_path@, images) == Some(load) && (images.len() == info_array_count || (
            images.len() > 0 && first_main_match(process_path@, images, 0, true) == Some(load)
                && first_main_match(process_path@, images.drop_last(), 0, true) is None))),
        info_array_count > 0 && info_array != 0 ==> (r matches Err(m) ==> (m@ == main_image_not_found_text()
            && exists|images: Seq<(u64, Option<Seq<char>>)>|
            #[trigger] images_read(*read_image, *read_chunk, info_array, images) && images.len() == info_array_count
                && spec_main_load(process_path@, images) is None) || exists|images: Seq<(u64, Option<Seq<char>>)>|
            #[trigger] images_read(*read_image, *read_chunk, info_array, images) && images.len() < info_array_count
                && first_main_match(process_path@, images, 0, true) is None && image_read_failed(
                *read_image,
                *read_chunk,
                info_array,
                images.len() as int,
                m@,
            )),
{
    if info_array_count == 0 || info_array == 0 {
        return Err(String::from_str("dyld image list가 비어 있습니다."));
    }
    let wanted = String::from_str(process_path);
    let mut images: Vec<(u64, Option<String>)> = Vec::new();
    let mut i: u32 = 0;
    while i < info_array_count
        invariant
            forall|a: u64| read_image.requires((a,)),
            forall|a: u64| read_chunk.requires((a,)),
            forall|a: u64, out: Result<Vec<u8>, String>|
                read_chunk.ensures((a,), out) ==> (out matches Ok(v) ==> v@.len() == REMOTE_CHUNK),
            wanted@ == process_path@,
            info_array_count > 0 && info_array != 0,
            i <= info_array_count,
            images@.len() == i,
            images_read(*read_image, *read_chunk, info_array, images_view(images@)),
            first_main_match(process_path@, images_view(images@), 0, true) is None,
        decreases info_array_count - i,
    {
        let ghost before = images_view(images@);
        let address = info_array.wrapping_add(i as u64 * DYLD_IMAGE_INFO_SIZE);
        assert(address == image_record_address(info_array, i as int));
        let rec = read_image(address);
        let (load, ptr) = match rec {
            Ok(rec) => rec,
            Err(e) => {
                assert(image_read_failed(*read_image, *read_chunk, info_array, before.len() as int, e@));
                return Err(e);
            },
        };
        let mut entry_path: Option<String> = None;
        if load != 0 && ptr != 0 {
            let path = match read_remote_c_string(ptr, MAX_REMOTE_PATH_LEN, read_chunk) {
                Ok(p) => p,
                Err(e) => {
                    assert(image_read_failed(*read_image, *read_chunk, info_array, before.len() as int, e@));
                    return Err(e);
                },
            };
            let exact = path == wanted;
            let ghost pv = path@;
            assert(remote_c_string(*read_chunk, ptr, MAX_REMOTE_PATH_LEN, pv));
            entry_path = Some(path);
            images.push((load, entry_path));
            let ghost after = images_view(images@);
            proof {
                assert(images@.last() == (load, entry_path));
                assert(after.last() == (load, Some(pv)));
                assert(read_image.ensures((address,), Ok::<(u64, u64), String>((load, ptr))));
                assert(after =~= before.push((load, after.last().1)));
                assert(before.len() == i);
                assert(read_image.ensures(
                    (image_record_address(info_array, before.len() as int),),
                    Ok::<(u64, u64), String>((after.last().0, ptr)),
                ));
                assert(after.last().1 matches Some(q) && remote_c_string(*read_chunk, ptr, MAX_REMOTE_PATH_LEN, q));
                assert(image_read_as(*read_image, *read_chunk, info_array, before.len() as int, after.last()));
                assert forall|k: int| 0 <= k < after.len() implies #[trigger] image_read_as(
                    *read_image,
                    *read_chunk,
                    info_array,
                    k,
                    after[k],
                ) by {
                    if k < before.len() {
                        assert(after[k] == before[k]);
                    }
                }
                lemma_first_main_match_push(process_path@, before, (load, after.last().1), true);
            }
            if exact {
                proof {
                    assert(after.drop_last() =~= before);
                    assert(names_main_image(process_path@, pv, true));
                    assert(first_main_match(process_path@, after, 0, true) == Some(load));
                    assert(images_read(*read_image, *read_chunk, info_array, after));
                    assert(spec_main_load(process_path@, after) == Some(load));
                }
                return Ok(load);
            }
        } else {
            images.push((load, entry_path));
            let ghost after = images_view(images@);
            proof {
                assert(images@.last() == (load, entry_path));
                assert(after.last() == (load, None::<Seq<char>>));
                assert(read_image.ensures((address,), Ok::<(u64, u64), String>((load, ptr))));
                assert(after =~= before.push((load, None)));
                assert(image_read_as(*read_image, *read_chunk, info_array, before.len() as int, after.last()));
                assert forall|k: int| 0 <= k < after.len() implies #[trigger] image_read_as(
                    *read_image,
                    *read_chunk,
                    info_array,
                    k,
                    after[k],
                ) by {
                    if k < before.len() {
                        assert(after[k] == before[k]);
                    }
                }
                lemma_first_main_match_push(process_path@, before, (load, None), true);
            }
        }
        i = i + 1;
    }
    match main_image_load(process_path, images.as_slice()) {
        Some(load) => Ok(load),
        None => Err(String::from_str("dyld image list에서 main executable load address를 찾지 못했습니다.")),
    }
}

/// Searching a list with one more image: the old answer if there was one,
/// else whether the new image matches.
proof fn lemma_first_main_match_push(
    process_path: Seq<char>,
    images: Seq<(u64, Option<Seq<char>>)>,
    image: (u64, Option<Seq<char>>),
    exact: bool,
)
    ensures
        first_main_match(process_path, images.push(image), 0, exact) == match first_main_match(
            process_path,
            images,
            0,
            exact,
        ) {
            Some(l) => Some(l),
            None => if image.1 matches Some(p) && names_main_image(process_path, p, exact) {
                Some(image.0)
            } else {
                None
            },
        },
{
    lemma_first_main_match_push_from(process_path, images, image, exact, 0);
}

proof fn lemma_first_main_match_push_from(
    process_path: Seq<char>,
    images: Seq<(u64, Option<Seq<char>>)>,
    image: (u64, Option<Seq<char>>),
    exact: bool,
    i: int,
)
    requires
        0 <= i <= images.len(),
    ensures
        first_main_match(process_path, images.push(image), i, exact) == match first_main_match(
            process_path,
            images,
            i,
            exact,
        ) {
            Some(l) => Some(l),
            None => if image.1 matches Some(p) && names_main_image(process_path, p, exact) {
                Some(image.0)
            } else {
                None
            },
        },
    decreases images.len() - i,
{
    let ext = images.push(image);
    if i < images.len() {
        assert(ext[i] == images[i]);
        lemma_first_main_match_push_from(process_path, images, image, exact, i + 1);
    } else {
        assert(ext[i] == image);
        assert(first_main_match(process_path, ext, i + 1, exact) is None);
    }
}

/// The text of an optional string.
pub open spec fn opt_view(o: Option<String>) -> Option<Seq<char>> {
    match o {
        Some(s) => Some(s@),
        None => None,
    }
}

fn same_opt_string(a: &Option<String>, b: &Option<String>) -> (r: bool)
    ensures
        r == (opt_view(*a) == opt_view(*b)),
{
    match (a, b) {
        (Some(x), Some(y)) => *x == *y,
        (None, None) => true,
        _ => false,
    }
}

/// One remembered symbol lookup: where `symbol` lies in the executable at
/// `path` of the given size, modification time and UUID.
#[derive(Debug)]
pub struct GworldSymbolCacheEntry {
    pub path: String,
    pub len: u64,
    pub modified_secs: u64,
    pub uuid: Option<String>,
    pub symbol: String,
    pub address: u64,
}

impl Clone for GworldSymbolCacheEntry {
    fn clone(&self) -> (r: Self)
        ensures
            r == *self,
    {
        GworldSymbolCacheEntry {
            path: self.path.clone(),
            len: self.len,
            modified_secs: self.modified_secs,
            uuid: match &self.uuid {
                Some(u) => Some(u.clone()),
                None => None,
            },
            symbol: self.symbol.clone(),
            address: self.address,
        }
    }
}

/// The symbol lookups remembered across runs.
#[derive(Debug)]
pub struct GworldSymbolCache {
    pub entries: Vec<GworldSymbolCacheEntry>,
}

/// An entry for exactly this file and symbol.
pub open spec fn symbol_entry_matches(
    e: GworldSymbolCacheEntry,
    path: Seq<char>,
    len: u64,
    modified_secs: u64,
    uuid: Option<Seq<char>>,
    symbol: Seq<char>,
) -> bool {
    &&& e.path@ == path
    &&& e.len == len
    &&& e.modified_secs == modified_secs
    &&& opt_view(e.uuid) == uuid
    &&& e.symbol@ == symbol
}

/// The address of the first entry for this file and symbol, if any.
pub open spec fn spec_cached_symbol(
    entries: Seq<GworldSymbolCacheEntry>,
    path: Seq<char>,
    len: u64,
    modified_secs: u64,
    uuid: Option<Seq<char>>,
    symbol: Seq<char>,
) -> Option<u64>
    decreases entries.len(),
{
    if entries.len() == 0 {
        None
    } else if symbol_entry_matches(entries[0], path, len, modified_secs, uuid, symbol) {
        Some(entries[0].address)
    } else {
        spec_cached_symbol(entries.drop_first(), path, len, modified_secs, uuid, symbol)
    }
}

impl GworldSymbolCache {
    /// An empty cache.
    pub fn new() -> (r: Self)
        ensures
            r.entries@.len() == 0,
    {
        GworldSymbolCache { entries: Vec::new() }
    }

    /// The remembered address of `symbol` in this exact file, if any.
    pub fn cached_address(
        &self,
        path: &str,
        len: u64,
        modified_secs: u64,
        uuid: &Option<String>,
        symbol: &str,
    ) -> (r: Option<u64>)
        ensures
            r == spec_cached_symbol(self.entries@, path@, len, modified_secs, opt_view(*uuid), symbol@),
    {
        let wanted_path = String::from_str(path);
        let wanted_symbol = String::from_str(symbol);
        let mut i: usize = 0;
        assert(self.entries@.skip(0) =~= self.entries@);
        while i < self.entries.len()
            invariant
                i <= self.entries@.len(),
                wanted_path@ == path@,
                wanted_symbol@ == symbol@,
                spec_cached_symbol(self.entries@, path@, len, modified_secs, opt_view(*uuid), symbol@)
                    == spec_cached_symbol(
                    self.entries@.skip(i as int),
                    path@,
                    len,
                    modified_secs,
                    opt_view(*uuid),
                    symbol@,
                ),
            decreases self.entries@.len() - i,
        {
            proof {
                let rest = self.entries@.skip(i as int);
                assert(rest[0] == self.entries@[i as int]);
                assert(rest.drop_first() =~= self.entries@.skip(i + 1));
            }
            let e = &self.entries[i];
            if e.path == wanted_path && e.len == len && e.modified_secs == modified_secs && same_opt_string(
                &e.uuid,
                uuid,
            ) && e.symbol == wanted_symbol {
                return Some(e.address);
            }
            i = i + 1;
        }
        None
    }

    /// Remembers a lookup, dropping every older entry for the same file path
    /// and symbol.
    pub fn record(&mut self, entry: GworldSymbolCacheEntry)
        ensures
            final(self).entries@.len() >= 1,
            final(self).entries@.last() == entry,
            forall|k: int|
                0 <= k < final(self).entries@.len() - 1 ==> !(#[trigger] final(self).entries@[k].path@
                    == entry.path@ && final(self).entries@[k].symbol@ == entry.symbol@),
            forall|k: int|
                0 <= k < old(self).entries@.len() && !(old(self).entries@[k].path@ == entry.path@
                    && old(self).entries@[k].symbol@ == entry.symbol@) ==> final(self).entries@.contains(
                    #[trigger] old(self).entries@[k],
                ),
    {
        let mut kept: Vec<GworldSymbolCacheEntry> = Vec::new();
        let mut i: usize = 0;
        while i < self.entries.len()
            invariant
                i <= self.entries@.len(),
                forall|k: int|
                    0 <= k < kept@.len() ==> !(#[trigger] kept@[k].path@ == entry.path@ && kept@[k].symbol@
                        == entry.symbol@),
                forall|k: int|
                    0 <= k < i && !(self.entries@[k].path@ == entry.path@ && self.entries@[k].symbol@
                        == entry.symbol@) ==> kept@.contains(#[trigger] self.entries@[k]),
            decreases self.entries@.len() - i,
        {
            let e = &self.entries[i];
            if !(e.path == entry.path && e.symbol == entry.symbol) {
                let ghost before = kept@;
                kept.push(e.clone());
                proof {
                    assert forall|k: int|
                        0 <= k < i + 1 && !(self.entries@[k].path@ == entry.path@ && self.entries@[k].symbol@
                            == entry.symbol@) implies kept@.contains(#[trigger] self.entries@[k]) by {
                        if k < i {
                            let w = choose|w: int| 0 <= w < before.len() && before[w] == self.entries@[k];
                            assert(kept@[w] == before[w]);
                        } else {
                            assert(kept@[kept@.len() - 1] == self.entries@[k]);
                        }
                    }
                }
            }
            i = i + 1;
        }
        let ghost kept_before = kept@;
        kept.push(entry);
        proof {
            assert forall|k: int|
                0 <= k < self.entries@.len() && !(self.entries@[k].path@ == entry.path@ && self.entries@[k].symbol@
                    == entry.symbol@) implies kept@.contains(#[trigger] self.entries@[k]) by {
                let w = choose|w: int| 0 <= w < kept_before.len() && kept_before[w] == self.entries@[k];
                assert(kept@[w] == kept_before[w]);
            }
        }
        self.entries = kept;
    }
}

/// The error of a failed `_GWorld` read at `target`.
pub fn symbol_read_error(target: u64, cause: &crate::errors::NativeError) -> (r: crate::errors::NativeError)
    ensures
        r matches crate::errors::NativeError::PointerChainError { message } && message@ == "_GWorld 위치 ("@
            + hex_upper(target as nat) + ")의 주소 값을 읽지 못했습니다: "@ + crate::errors::display_text(
            *cause,
        ),
{
    let mut m = String::from_str("_GWorld 위치 (");
    m.append(hex_upper_string(target).as_str());
    m.append(")의 주소 값을 읽지 못했습니다: ");
    m.append(cause.to_display_string().as_str());
    crate::errors::NativeError::PointerChainError { message: m }
}

/// The label shown for coordinates found through an offset variant on macOS.
pub fn mac_offset_label(offset_name: &str) -> (r: String)
    ensures
        r@ == "mac:"@ + offset_name@,
{
    let mut s = String::from_str("mac:");
    s.append(offset_name);
    s
}

/// `KERN_SUCCESS`.
pub const KERN_SUCCESS: i32 = 0;

/// `MACH_PORT_NULL`.
pub const MACH_PORT_NULL: u32 = 0;

/// A signed number in decimal, as `{}` prints it.
pub open spec fn signed_decimal(v: int) -> Seq<char> {
    if v < 0 {
        "-"@ + decimal((-v) as nat)
    } else {
        decimal(v as nat)
    }
}

/// `v` in decimal, with a minus sign when negative.
pub fn signed_decimal_string(v: i32) -> (r: String)
    ensures
        r@ == signed_decimal(v as int),
{
    if v < 0 {
        let magnitude: u64 = (0 - (v as i64)) as u64;
        let mut s = String::from_str("-");
        s.append(decimal_string(magnitude).as_str());
        s
    } else {
        decimal_string(v as u64)
    }
}

/// The outcome of asking for the game's task port: the port, or why it was
/// refused (the app must be signed with the debugger entitlement).
pub fn check_task_port(kr: i32, port: u32) -> (r: Result<u32, String>)
    ensures
        kr == KERN_SUCCESS && port != MACH_PORT_NULL ==> r == Ok::<u32, String>(port),
        !(kr == KERN_SUCCESS && port != MACH_PORT_NULL) ==> (r matches Err(m) && m@
            == "게임 프로세스 권한을 얻지 못했습니다. macOS에서는 com.apple.security.cs.debugger entitlement로 앱을 서명해야 합니다. kern_return="@
            + signed_decimal(kr as int)),
{
    if kr != KERN_SUCCESS || port == MACH_PORT_NULL {
        let mut m = String::from_str(
            "게임 프로세스 권한을 얻지 못했습니다. macOS에서는 com.apple.security.cs.debugger entitlement로 앱을 서명해야 합니다. kern_return=",
        );
        m.append(signed_decimal_string(kr).as_str());
        return Err(m);
    }
    Ok(port)
}

/// The outcome of `TASK_DYLD_INFO`.
pub fn check_dyld_info(kr: i32) -> (r: Result<(), String>)
    ensures
        kr == KERN_SUCCESS ==> r is Ok,
        kr != KERN_SUCCESS ==> (r matches Err(m) && m@ == "TASK_DYLD_INFO 조회 실패: kern_return="@ + signed_decimal(
            kr as int,
        )),
{
    if kr != KERN_SUCCESS {
        let mut m = String::from_str("TASK_DYLD_INFO 조회 실패: kern_return=");
        m.append(signed_decimal_string(kr).as_str());
        return Err(m);
    }
    Ok(())
}

/// Whether a read of the game's memory at `address` may be attempted: never
/// at address 0.
pub fn check_read_address(address: u64) -> (r: Result<(), String>)
    ensures
        address != 0 ==> r is Ok,
        address == 0 ==> (r matches Err(m) && m@ == "원격 메모리 주소가 0입니다."@),
{
    if address == 0 {
        return Err(String::from_str("원격 메모리 주소가 0입니다."));
    }
    Ok(())
}

/// The outcome of `mach_vm_read_overwrite` for `len` bytes: a success only
/// when the call succeeded and copied every byte.
pub fn check_vm_read(kr: i32, bytes_read: u64, len: u64) -> (r: Result<(), String>)
    ensures
        kr == KERN_SUCCESS && bytes_read == len ==> r is Ok,
        !(kr == KERN_SUCCESS && bytes_read == len) ==> (r matches Err(m) && m@
            == "mach_vm_read_overwrite 실패: kern_return="@ + signed_decimal(kr as int) + ", bytes_read="@
            + decimal(bytes_read as nat) + "/"@ + decimal(len as nat)),
{
    if kr == KERN_SUCCESS && bytes_read == len {
        return Ok(());
    }
    let mut m = String::from_str("mach_vm_read_overwrite 실패: kern_return=");
    m.append(signed_decimal_string(kr).as_str());
    m.append(", bytes_read=");
    m.append(decimal_string(bytes_read).as_str());
    m.append("/");
    m.append(decimal_string(len).as_str());
    Err(m)
}

/// What to do with one listing of all process ids into a buffer of
/// `capacity` entries that reported `count`.
#[derive(Clone, Copy, Debug, PartialEq, Eq)]
pub enum PidListStep {
    /// The listing failed or is empty.
    Nothing,
    /// The buffer may have been too small: list again into this many entries.
    Grow(usize),
    /// The first `count` entries are the processes.
    Use(usize),
}

/// Decides on a process listing: a count that fills the buffer may be cut
/// short, so the buffer doubles.
pub fn pid_list_step(count: i32, capacity: usize) -> (r: PidListStep)
    requires
        capacity <= usize::MAX / 2,
    ensures
        count <= 0 ==> r == PidListStep::Nothing,
        count > 0 && count as int >= capacity ==> r == PidListStep::Grow((capacity * 2) as usize),
        count > 0 && (count as int) < capacity ==> r == PidListStep::Use(count as usize),
{
    if count <= 0 {
        return PidListStep::Nothing;
    }
    let n = count as usize;
    if n >= capacity {
        PidListStep::Grow(capacity * 2)
    } else {
        PidListStep::Use(n)
    }
}

/// The first positive pid in `procs` whose process name is exactly `name`.
pub open spec fn first_named_pid(procs: Seq<(i32, Option<String>)>, name: Seq<char>) -> Option<i32>
    decreases procs.len(),
{
    if procs.len() == 0 {
        None
    } else if procs[0].0 > 0 && opt_view(procs[0].1) == Some(name) {
        Some(procs[0].0)
    } else {
        first_named_pid(procs.drop_first(), name)
    }
}

/// Finds the game among listed processes, given each pid with its process
/// name when it could be read.
pub fn find_pid_by_name(name: &str, procs: &[(i32, Option<String>)]) -> (r: Option<i32>)
    ensures
        r == first_named_pid(procs@, name@),
{
    let wanted = String::from_str(name);
    let mut i: usize = 0;
    assert(procs@.skip(0) =~= procs@);
    while i < procs.len()
        invariant
            i <= procs@.len(),
            wanted@ == name@,
            first_named_pid(procs@, name@) == first_named_pid(procs@.skip(i as int), name@),
        decreases procs@.len() - i,
    {
        proof {
            let rest = procs@.skip(i as int);
            assert(rest[0] == procs@[i as int]);
            assert(rest.drop_first() =~= procs@.skip(i + 1));
        }
        let (pid, pname) = (&procs[i].0, &procs[i].1);
        if *pid > 0 {
            if let Some(n) = pname {
                if *n == wanted {
                    return Some(*pid);
                }
            }
        }
        i = i + 1;
    }
    assert(procs@.skip(i as int).len() == 0);
    None
}

} // verus!
