use std::collections::HashMap;

use wuma_tracker::errors::NativeError;
use wuma_tracker::mac_image::{
    check_dyld_info, check_read_address, check_task_port, check_vm_read, find_pid_by_name, mac_offset_label,
    load_address, pid_list_step, signed_decimal_string, PidListStep, read_remote_c_string, runtime_symbol_address, symbol_read_error,
    uuid_hex, file_name, main_image_load, GworldSymbolCache, GworldSymbolCacheEntry,
};
use wuma_tracker::macho_entry::entry_point_fits_at;
use wuma_tracker::macho_lookup::{macho_uuid, symbol_address, symbol_address_with_cache};
use wuma_tracker::offsets::WuwaOffset;
use wuma_tracker::user_scan::{
    check_process_read, find_gworld_rva_with_cache, process_alive, gworld_address, gworld_read_error, read_pe_exception_dir, rescan_gworld,
    scan_gworld_rva, user_batch_rules, GworldScanCache, GworldScanCacheEntry, PeExceptionDir,
};
use wuma_tracker::pe_scan::BatchRules;

const BASE: u64 = 0x7FF6_0000_0000;

fn put_u32(buf: &mut [u8], off: usize, v: u32) {
    buf[off..off + 4].copy_from_slice(&v.to_le_bytes());
}

fn image() -> Vec<u8> {
    let mut img = vec![0u8; 0x10000];
    put_u32(&mut img, 0x3C, 0x80);
    put_u32(&mut img, 0x80 + 8, 0x6500_0000);
    put_u32(&mut img, 0x80 + 80, 0x10000);
    put_u32(&mut img, 0x80 + 160, 0x2000);
    put_u32(&mut img, 0x80 + 164, 26);
    put_u32(&mut img, 0x2000, 0x1000);
    put_u32(&mut img, 0x2004, 0x1100);
    put_u32(&mut img, 0x200C, 0x1080);
    put_u32(&mut img, 0x2010, 0x1200);
    let at = 0x1150;
    img[at..at + 3].copy_from_slice(&[0x48, 0x8B, 0x1D]);
    put_u32(&mut img, at + 3, (-0x100i32) as u32);
    img[at + 7..at + 15].copy_from_slice(&[0x48, 0x85, 0xDB, 0x74, 0x10, 0x41, 0xB0, 0x01]);
    img
}

fn reader_u32(img: &[u8]) -> impl Fn(u64) -> Option<u32> + '_ {
    move |a: u64| {
        let off = a.checked_sub(BASE)? as usize;
        let b = img.get(off..off + 4)?;
        Some(u32::from_le_bytes([b[0], b[1], b[2], b[3]]))
    }
}

fn reader_mem(img: &[u8]) -> impl Fn(u64, usize) -> Option<Vec<u8>> + '_ {
    move |a: u64, n: usize| {
        let off = a.checked_sub(BASE)? as usize;
        img.get(off..off + n).map(|s| s.to_vec())
    }
}

#[test]
fn user_mode_header_fields() {
    let img = image();
    let d = read_pe_exception_dir(BASE, &reader_u32(&img)).unwrap();
    assert_eq!(d, PeExceptionDir { timestamp: 0x6500_0000, size_of_image: 0x10000, pdata_rva: 0x2000, pdata_size: 26 });
    let none = |_a: u64| None;
    assert_eq!(read_pe_exception_dir(BASE, &none).err(), Some("e_lfanew 읽기 실패".to_string()));
    let only_lfanew = |a: u64| if a == BASE + 0x3C { Some(0x80u32) } else { None };
    assert_eq!(read_pe_exception_dir(BASE, &only_lfanew).err(), Some("TimeDateStamp 읽기 실패".to_string()));
}

#[test]
fn user_mode_scan_finds_anchor() {
    let img = image();
    assert_eq!(user_batch_rules(), BatchRules { max_gap: 4096, max_batch: 262144, saturating: false });
    // functions [0x1000,0x1100) and [0x1080,0x1200) overlap: the wrapping
    // distance puts the second in its own batch, where the pattern lies
    assert_eq!(scan_gworld_rva(BASE, &reader_u32(&img), &reader_mem(&img)), Ok(0x1150 + 7 - 0x100));
    let mut no_pdata = img.clone();
    put_u32(&mut no_pdata, 0x80 + 164, 8);
    assert_eq!(
        scan_gworld_rva(BASE, &reader_u32(&no_pdata), &reader_mem(&no_pdata)).err(),
        Some(".pdata 섹션을 찾지 못했습니다.".to_string())
    );
    let no_mem = |_a: u64, _n: usize| None;
    assert_eq!(scan_gworld_rva(BASE, &reader_u32(&img), &no_mem).err(), Some(".pdata 읽기 실패".to_string()));
    let mut no_pattern = img.clone();
    no_pattern[0x1150] = 0;
    assert_eq!(
        scan_gworld_rva(BASE, &reader_u32(&no_pattern), &reader_mem(&no_pattern)).err(),
        Some("GWorld 패턴을 찾지 못했습니다.".to_string())
    );
}

fn scan_entry(path: &str, ts: u32, rva: u64) -> GworldScanCacheEntry {
    GworldScanCacheEntry { exe_path: path.to_string(), pe_timestamp: ts, size_of_image: 0x10000, gworld_rva: rva }
}

#[test]
fn scan_cache_is_keyed_by_build() {
    let mut cache = GworldScanCache::new();
    assert_eq!(cache.cached_rva("C:\\g.exe", 1, 0x10000), None);
    cache.record(scan_entry("C:\\g.exe", 1, 0x50));
    cache.record(scan_entry("D:\\other.exe", 1, 0x60));
    assert_eq!(cache.cached_rva("C:\\g.exe", 1, 0x10000), Some(0x50));
    assert_eq!(cache.cached_rva("C:\\g.exe", 2, 0x10000), None);
    assert_eq!(cache.cached_rva("C:\\g.exe", 1, 0x20000), None);
    // a new build of the same executable replaces the old entry
    cache.record(scan_entry("C:\\g.exe", 2, 0x70));
    assert_eq!(cache.entries.len(), 2);
    assert_eq!(cache.cached_rva("C:\\g.exe", 1, 0x10000), None);
    assert_eq!(cache.cached_rva("C:\\g.exe", 2, 0x10000), Some(0x70));
    assert_eq!(cache.cached_rva("D:\\other.exe", 1, 0x10000), Some(0x60));
}

fn offset(gworld: u64) -> WuwaOffset {
    WuwaOffset {
        name: "v".to_string(),
        global_gworld: gworld,
        uworld_persistentlevel: 0,
        uworld_owninggameinstance: 0,
        ulevel_lastworldorigin: 0,
        ugameinstance_localplayers: 0,
        uplayer_playercontroller: 0,
        aplayercontroller_acknowlegedpawn: 0,
        aactor_rootcomponent: 0,
        uscenecomponent_componenttoworld: 0,
    }
}

#[test]
fn gworld_read_location() {
    assert_eq!(gworld_address(BASE, 0x4000, &offset(0x9000)), BASE + 0x4000);
    assert_eq!(gworld_address(BASE, 0, &offset(0x9000)), BASE + 0x9000);
    let e = gworld_read_error(0xABC, &NativeError::ValueReadError { message: "boom".to_string() });
    assert_eq!(e.to_display_string(), "GWorld 위치 (ABC)의 주소 값을 읽지 못했습니다: boom");
}

fn memory_with(strings: &[(u64, &[u8])]) -> HashMap<u64, u8> {
    let mut m = HashMap::new();
    for (addr, bytes) in strings {
        for (i, b) in bytes.iter().enumerate() {
            m.insert(addr + i as u64, *b);
        }
    }
    m
}

fn chunk_reader(mem: &HashMap<u64, u8>) -> impl Fn(u64) -> Result<Vec<u8>, String> + '_ {
    move |a: u64| {
        if a == 0 {
            return Err("원격 메모리 주소가 0입니다.".to_string());
        }
        Ok((0..256u64).map(|i| mem.get(&a.wrapping_add(i)).copied().unwrap_or(0xAA)).collect())
    }
}

#[test]
fn remote_c_strings() {
    let long: Vec<u8> = std::iter::repeat(b'x').take(300).chain(std::iter::once(0)).collect();
    let mem = memory_with(&[(0x1000, b"/Applications/WW.app/Contents/MacOS/Client\0"), (0x5000, &long)]);
    let read = chunk_reader(&mem);
    assert_eq!(
        read_remote_c_string(0x1000, 4096, &read),
        Ok("/Applications/WW.app/Contents/MacOS/Client".to_string())
    );
    // a string spanning two chunks
    assert_eq!(read_remote_c_string(0x5000, 4096, &read).unwrap().len(), 300);
    // a limit below the terminator's chunk
    assert_eq!(read_remote_c_string(0x5000, 256, &read), Err("원격 문자열이 너무 깁니다.".to_string()));
    assert_eq!(read_remote_c_string(0, 4096, &read), Err("원격 문자열 읽기 실패: 0".to_string()));
    // invalid UTF-8 is replaced
    let mem = memory_with(&[(0x2000, &[0x61, 0xFF, 0x62, 0x00])]);
    assert_eq!(read_remote_c_string(0x2000, 4096, &chunk_reader(&mem)), Ok("a\u{FFFD}b".to_string()));
}

#[test]
fn main_executable_in_image_list() {
    let mem = memory_with(&[
        (0x1000, b"/usr/lib/dyld\0"),
        (0x2000, b"/Other/Place/Client\0"),
        (0x3000, b"/Applications/WW.app/Contents/MacOS/Client\0"),
    ]);
    let images: HashMap<u64, (u64, u64)> = [
        (0x9000u64, (0x1_8000_0000u64, 0x1000u64)),
        (0x9000 + 24, (0x1_0000_4000, 0x2000)),
        (0x9000 + 48, (0, 0)),
        (0x9000 + 72, (0x1_0000_8000, 0x3000)),
    ]
    .into_iter()
    .collect();
    let read_image = |a: u64| images.get(&a).copied().ok_or_else(|| format!("원격 메모리 읽기 실패: {:X}", a));
    let read = chunk_reader(&mem);
    // the exact path wins over an earlier file-name match
    assert_eq!(
        load_address("/Applications/WW.app/Contents/MacOS/Client", 4, 0x9000, &read_image, &read),
        Ok(0x1_0000_8000)
    );
    // without it, the first file-name match is taken
    assert_eq!(load_address("/elsewhere/Client", 4, 0x9000, &read_image, &read), Ok(0x1_0000_4000));
    assert_eq!(
        load_address("/elsewhere/Nothing", 4, 0x9000, &read_image, &read),
        Err("dyld image list에서 main executable load address를 찾지 못했습니다.".to_string())
    );
    assert_eq!(
        load_address("/x", 0, 0x9000, &read_image, &read),
        Err("dyld image list가 비어 있습니다.".to_string())
    );
    // a record that cannot be read ends the search with its error
    assert_eq!(
        load_address("/elsewhere/Nothing", 5, 0x9000, &read_image, &read),
        Err("원격 메모리 읽기 실패: 9060".to_string())
    );
}

#[test]
fn runtime_address_of_symbol() {
    assert_eq!(runtime_symbol_address(0x1_0000_4000, 0x1_0800_0000), Ok(0x1_0800_4000));
    assert_eq!(runtime_symbol_address(0x1_0000_0000, 0x20), Ok(0x20));
    assert_eq!(runtime_symbol_address(0xFFFF_0000, 0x20), Err("잘못된 Mach-O Load Address: FFFF0000".to_string()));
    assert_eq!(
        runtime_symbol_address(u64::MAX, u64::MAX),
        Err("_GWorld 런타임 주소 계산 overflow".to_string())
    );
}

#[test]
fn uuid_formatting() {
    assert_eq!(uuid_hex(&[0x00, 0x0A, 0xFF, 0x12]), "000aff12");
    assert_eq!(uuid_hex(&[]), "");
}

fn sym_entry(path: &str, uuid: Option<&str>, address: u64) -> GworldSymbolCacheEntry {
    GworldSymbolCacheEntry {
        path: path.to_string(),
        len: 100,
        modified_secs: 5,
        uuid: uuid.map(|u| u.to_string()),
        symbol: "_GWorld".to_string(),
        address,
    }
}

#[test]
fn symbol_cache_matches_every_field() {
    let mut cache = GworldSymbolCache::new();
    cache.record(sym_entry("/a", Some("u1"), 0x10));
    assert_eq!(cache.cached_address("/a", 100, 5, &Some("u1".to_string()), "_GWorld"), Some(0x10));
    assert_eq!(cache.cached_address("/a", 100, 5, &None, "_GWorld"), None);
    assert_eq!(cache.cached_address("/a", 101, 5, &Some("u1".to_string()), "_GWorld"), None);
    assert_eq!(cache.cached_address("/a", 100, 5, &Some("u1".to_string()), "_Other"), None);
    cache.record(sym_entry("/a", None, 0x20));
    assert_eq!(cache.entries.len(), 1);
    assert_eq!(cache.cached_address("/a", 100, 5, &None, "_GWorld"), Some(0x20));
    assert_eq!(mac_offset_label("v3"), "mac:v3");
    let e = symbol_read_error(0x10, &NativeError::ProcessTerminated);
    assert_eq!(e.to_display_string(), "_GWorld 위치 (10)의 주소 값을 읽지 못했습니다: proc_terminated");
}

fn push_u32(v: &mut Vec<u8>, x: u32) {
    v.extend_from_slice(&x.to_le_bytes());
}

/// A minimal 64-bit Mach-O file with an `LC_UUID` and an `LC_SYMTAB` of two
/// symbols.
fn tiny_macho() -> Vec<u8> {
    let mut b = Vec::new();
    push_u32(&mut b, 0xFEED_FACF);
    push_u32(&mut b, 0x0100_000C);
    push_u32(&mut b, 0);
    push_u32(&mut b, 2);
    push_u32(&mut b, 2);
    push_u32(&mut b, 48);
    push_u32(&mut b, 0);
    push_u32(&mut b, 0);
    // LC_UUID
    push_u32(&mut b, 0x1B);
    push_u32(&mut b, 24);
    b.extend_from_slice(&[0xDE, 0xAD, 0xBE, 0xEF, 0, 1, 2, 3, 4, 5, 6, 7, 8, 9, 10, 11]);
    // LC_SYMTAB
    let symoff = 32 + 48;
    let stroff = symoff + 32;
    let strtab: &[u8] = b"\0_Foo\0_GWorld\0";
    push_u32(&mut b, 0x2);
    push_u32(&mut b, 24);
    push_u32(&mut b, symoff as u32);
    push_u32(&mut b, 2);
    push_u32(&mut b, stroff as u32);
    push_u32(&mut b, strtab.len() as u32);
    for (strx, value) in [(1u32, 0x1000u64), (6, 0x1_0000_5000)] {
        push_u32(&mut b, strx);
        b.push(0x0F);
        b.push(1);
        b.extend_from_slice(&0u16.to_le_bytes());
        b.extend_from_slice(&value.to_le_bytes());
    }
    b.extend_from_slice(strtab);
    b
}

/// A 64-bit Mach-O file with a `__TEXT` segment, an `LC_MAIN` and an
/// `LC_SYMTAB` of one symbol `_GWorld` = 0x2000.
fn macho_with_entry(vmaddr: u64, fileoff: u64, entryoff: u64) -> Vec<u8> {
    let mut b = Vec::new();
    push_u32(&mut b, 0xFEED_FACF);
    push_u32(&mut b, 0x0100_000C);
    push_u32(&mut b, 0);
    push_u32(&mut b, 2);
    push_u32(&mut b, 3);
    push_u32(&mut b, 72 + 24 + 24);
    push_u32(&mut b, 0);
    push_u32(&mut b, 0);
    // LC_SEGMENT_64 __TEXT, no sections, no file bytes
    push_u32(&mut b, 0x19);
    push_u32(&mut b, 72);
    let mut name = [0u8; 16];
    name[..6].copy_from_slice(b"__TEXT");
    b.extend_from_slice(&name);
    for v in [vmaddr, 0x1000, fileoff, 0] {
        b.extend_from_slice(&v.to_le_bytes());
    }
    for v in [5u32, 5, 0, 0] {
        push_u32(&mut b, v);
    }
    // LC_MAIN
    push_u32(&mut b, 0x8000_0028);
    push_u32(&mut b, 24);
    b.extend_from_slice(&entryoff.to_le_bytes());
    b.extend_from_slice(&0u64.to_le_bytes());
    // LC_SYMTAB
    let symoff = 32 + 72 + 24 + 24;
    let stroff = symoff + 16;
    let strtab: &[u8] = b"\0_GWorld\0";
    push_u32(&mut b, 0x2);
    push_u32(&mut b, 24);
    push_u32(&mut b, symoff as u32);
    push_u32(&mut b, 1);
    push_u32(&mut b, stroff as u32);
    push_u32(&mut b, strtab.len() as u32);
    push_u32(&mut b, 1);
    b.push(0x0F);
    b.push(1);
    b.extend_from_slice(&0u16.to_le_bytes());
    b.extend_from_slice(&0x2000u64.to_le_bytes());
    b.extend_from_slice(strtab);
    b
}

#[test]
fn macho_entry_overflow_is_refused_before_parsing() {
    let good = macho_with_entry(0x1_0000_0000, 0, 0x10);
    assert!(entry_point_fits_at(&good, 0));
    assert_eq!(symbol_address(&good, "_GWorld", 0x0100_000C), Ok(0x2000));
    assert_eq!(macho_uuid(&good, 0x0100_000C), Ok(None));
    // fileoff above vmaddr: goblin's `vmaddr - fileoff` would underflow
    let under = macho_with_entry(0, 0x10, 0);
    assert!(!entry_point_fits_at(&under, 0));
    assert_eq!(symbol_address(&under, "_GWorld", 0x0100_000C), Err("Mach-O 파싱 실패".to_string()));
    assert_eq!(macho_uuid(&under, 0x0100_000C), Err("Mach-O 파싱 실패".to_string()));
    // base address plus entry offset past u64
    let over = macho_with_entry(u64::MAX, 0, 1);
    assert!(!entry_point_fits_at(&over, 0));
    assert_eq!(symbol_address(&over, "_GWorld", 0x0100_000C), Err("Mach-O 파싱 실패".to_string()));
    // no LC_MAIN and other magics are left to the parse
    assert!(entry_point_fits_at(&tiny_macho(), 0));
    assert!(entry_point_fits_at(&[0xCA, 0xFE, 0xBA, 0xBE, 0, 0, 0, 0], 0));
}

/// A fat file holding `tiny_macho` as its one architecture.
fn tiny_fat() -> Vec<u8> {
    let inner = tiny_macho();
    let mut b = Vec::new();
    for v in [0xCAFE_BABEu32, 1, 0x0100_000C, 3, 28, inner.len() as u32, 0] {
        b.extend_from_slice(&v.to_be_bytes());
    }
    b.extend_from_slice(&inner);
    b
}

#[test]
fn fat_macho_lookup_by_cputype_and_by_scan() {
    let fat = tiny_fat();
    // no record has cputype 7: each architecture's own bytes are tried
    assert_eq!(symbol_address(&fat, "_GWorld", 7), Ok(0x1_0000_5000));
    assert_eq!(
        symbol_address(&fat, "_Missing", 7),
        Err("현재 CPU arch에서 _Missing 심볼을 찾지 못했습니다.".to_string())
    );
    assert_eq!(macho_uuid(&fat, 7), Ok(Some("deadbeef000102030405060708090a0b".to_string())));
    assert_eq!(macho_uuid(&fat, 0x0100_000C), Ok(Some("deadbeef000102030405060708090a0b".to_string())));
    assert_eq!(symbol_address(&fat[..6], "_GWorld", 7), Err("Mach-O 파싱 실패".to_string()));
}

#[test]
fn macho_without_uuid_command_has_no_uuid() {
    let mut bytes = tiny_macho();
    // Turn the LC_UUID command (right after the 32-byte header) into one
    // that goblin does not know.
    bytes[32..36].copy_from_slice(&0x1000u32.to_le_bytes());
    assert_eq!(macho_uuid(&bytes, 0x0100_000C), Ok(None));
    assert_eq!(symbol_address(&bytes, "_GWorld", 0x0100_000C), Ok(0x1_0000_5000));
    assert_eq!(symbol_address(&bytes, "_Foo", 0x0100_000C), Ok(0x1000));
}

#[test]
fn macho_symbol_and_uuid_lookup() {
    let bytes = tiny_macho();
    assert_eq!(symbol_address(&bytes, "_GWorld", 0x0100_000C), Ok(0x1_0000_5000));
    assert_eq!(symbol_address(&bytes, "_Foo", 0x0100_000C), Ok(0x1000));
    assert_eq!(
        symbol_address(&bytes, "_Missing", 0x0100_000C),
        Err("_Missing 심볼을 찾지 못했습니다.".to_string())
    );
    assert_eq!(macho_uuid(&bytes, 0x0100_000C), Ok(Some("deadbeef000102030405060708090a0b".to_string())));
    assert_eq!(symbol_address(&[1, 2], "_GWorld", 0), Err("Mach-O 파싱 실패".to_string()));
    assert_eq!(macho_uuid(&[1, 2, 3], 0), Err("Mach-O 파싱 실패".to_string()));
}

#[test]
fn scan_results_are_cached_per_build() {
    let img = image();
    let mut cache = GworldScanCache::new();
    let (r, changed) = find_gworld_rva_with_cache(&mut cache, "C:\\g.exe", BASE, &reader_u32(&img), &reader_mem(&img));
    assert_eq!(r, Ok(0x1057));
    assert!(changed);
    assert_eq!(cache.cached_rva("C:\\g.exe", 0x6500_0000, 0x10000), Some(0x1057));
    // the second time the image is not scanned
    let no_mem = |_a: u64, _n: usize| None;
    let (r, changed) = find_gworld_rva_with_cache(&mut cache, "C:\\g.exe", BASE, &reader_u32(&img), &no_mem);
    assert_eq!(r, Ok(0x1057));
    assert!(!changed);
    // a scan that fails falls back to 0 and leaves the cache alone
    let (rva, changed) = rescan_gworld(&mut cache, "C:\\g.exe", BASE, &reader_u32(&img), &no_mem);
    assert_eq!((rva, changed), (0, false));
    let (rva, changed) = rescan_gworld(&mut cache, "C:\\g.exe", BASE, &reader_u32(&img), &reader_mem(&img));
    assert_eq!((rva, changed), (0x1057, true));
    assert_eq!(cache.entries.len(), 1);
}

#[test]
fn symbol_lookup_uses_the_cache() {
    let bytes = tiny_macho();
    let mut cache = GworldSymbolCache::new();
    let (r, changed) = symbol_address_with_cache(&mut cache, "/g", bytes.len() as u64, 7, &bytes, "_GWorld", 0);
    assert_eq!(r, Ok(0x1_0000_5000));
    assert!(changed);
    assert_eq!(cache.entries[0].uuid, Some("deadbeef000102030405060708090a0b".to_string()));
    let (r, changed) = symbol_address_with_cache(&mut cache, "/g", bytes.len() as u64, 7, &bytes, "_GWorld", 0);
    assert_eq!(r, Ok(0x1_0000_5000));
    assert!(!changed);
    // a newer file is looked up again
    let (_, changed) = symbol_address_with_cache(&mut cache, "/g", bytes.len() as u64, 8, &bytes, "_GWorld", 0);
    assert!(changed);
    assert_eq!(cache.entries.len(), 1);
    let (r, changed) = symbol_address_with_cache(&mut cache, "/g", 2, 7, &[1, 2], "_GWorld", 0);
    assert_eq!(r, Err("Mach-O 파싱 실패".to_string()));
    assert!(!changed);
}

#[test]
fn mach_call_outcomes() {
    assert_eq!(check_task_port(0, 77), Ok(77));
    let e = check_task_port(5, 77).err().unwrap();
    assert!(e.starts_with("게임 프로세스 권한을 얻지 못했습니다."));
    assert!(e.ends_with("kern_return=5"));
    assert!(check_task_port(0, 0).err().unwrap().ends_with("kern_return=0"));
    assert_eq!(check_dyld_info(0), Ok(()));
    assert_eq!(check_dyld_info(-3), Err("TASK_DYLD_INFO 조회 실패: kern_return=-3".to_string()));
    assert_eq!(check_read_address(0), Err("원격 메모리 주소가 0입니다.".to_string()));
    assert_eq!(check_read_address(8), Ok(()));
    assert_eq!(check_vm_read(0, 8, 8), Ok(()));
    assert_eq!(
        check_vm_read(0, 4, 8),
        Err("mach_vm_read_overwrite 실패: kern_return=0, bytes_read=4/8".to_string())
    );
    assert_eq!(signed_decimal_string(i32::MIN), "-2147483648");
    assert_eq!(signed_decimal_string(42), "42");
}

#[test]
fn process_listing_on_macos() {
    assert_eq!(pid_list_step(0, 2048), PidListStep::Nothing);
    assert_eq!(pid_list_step(-1, 2048), PidListStep::Nothing);
    assert_eq!(pid_list_step(2048, 2048), PidListStep::Grow(4096));
    assert_eq!(pid_list_step(300, 2048), PidListStep::Use(300));
    let procs = vec![
        (0, Some("Client".to_string())),
        (12, None),
        (13, Some("Client".to_string())),
        (14, Some("Client".to_string())),
    ];
    assert_eq!(find_pid_by_name("Client", &procs), Some(13));
    assert_eq!(find_pid_by_name("Other", &procs), None);
}

#[test]
fn process_reads_and_liveness() {
    assert!(check_process_read(true, 0x10, 8, 8).is_ok());
    let e = check_process_read(true, 0xAB, 4, 8).err().unwrap();
    assert_eq!(e.to_display_string(), "ReadProcessMemory 실패: address=AB, bytes_read=4/8");
    // "address=0" is not the "addr=0" marker
    assert_eq!(check_process_read(false, 0, 0, 8).err().unwrap().user_message(), "메모리 읽기 실패");
    assert!(process_alive(true, 259));
    assert!(!process_alive(true, 0));
    assert!(!process_alive(false, 259));
}

#[test]
fn unix_file_name_rules() {
    let f = |p: &str| file_name(p);
    assert_eq!(f("/Applications/WW.app/Contents/MacOS/Client"), Some("Client".to_string()));
    assert_eq!(f("/a/b/"), Some("b".to_string()));
    assert_eq!(f("a/."), Some("a".to_string()));
    assert_eq!(f("foo.txt/.//"), Some("foo.txt".to_string()));
    assert_eq!(f("./x"), Some("x".to_string()));
    assert_eq!(f("x"), Some("x".to_string()));
    assert_eq!(f("foo/.."), None);
    assert_eq!(f(".."), None);
    assert_eq!(f("/"), None);
    assert_eq!(f("."), None);
    assert_eq!(f(""), None);
    // a backslash is no separator under Unix rules
    assert_eq!(f("C:\\a\\b.exe"), Some("C:\\a\\b.exe".to_string()));
    for p in ["/a/b", "/a/b/", "a/./", "..", "/", "x/../y", "./.", "a//b"] {
        let std_name = std::path::Path::new(p).file_name().map(|n| n.to_str().unwrap().to_string());
        assert_eq!(f(p), std_name, "{}", p);
    }
}

#[test]
fn main_image_prefers_exact_path_then_file_name() {
    let images = vec![
        (0x10u64, None),
        (0x20u64, Some("/other/Client".to_string())),
        (0x30u64, Some("/game/Client".to_string())),
        (0x40u64, Some("/x/Client".to_string())),
    ];
    assert_eq!(main_image_load("/game/Client", &images), Some(0x30));
    assert_eq!(main_image_load("/elsewhere/Client", &images), Some(0x20));
    assert_eq!(main_image_load("/elsewhere/Nothing", &images), None);
    assert_eq!(main_image_load("/", &images), None);
}
