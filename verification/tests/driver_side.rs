use std::collections::HashMap;

use wuma_tracker::abi::{
    ascii_prefix, ascii_to_utf16, ctl, unicode_string_lengths, APP_PROCESS_NAME, GET_LOCATION_RESPONSE_SIZE, IOCTL_GET_LOCATION,
    TARGET_PROCESS_NAME,
};
use wuma_tracker::bytes::{read_i32, read_u32, read_u64};
use wuma_tracker::coord_chain::{checked_module_base, is_valid_ptr, read_player_world_position, FIntVector};
use wuma_tracker::device::{
    admit_location_request, location_reply_completion, location_reply_stage, refused_ioctl_completion,
    route_ioctl, DeviceOwner, IoctlRoute, STATUS_ACCESS_DENIED, STATUS_BUFFER_TOO_SMALL,
    STATUS_INVALID_PARAMETER, STATUS_NOT_FOUND, STATUS_SUCCESS, STAGE_TARGET_MISSING,
};
use wuma_tracker::locator_cache::{caller_is_app, cached_process_is_target, LocatorCache};
use wuma_tracker::names::{image_name_has_prefix, path_ends_with_ignore_ascii_case, to_ascii_lower_u16};
use wuma_tracker::pe_scan::{
    driver_batch_rules, find_hardcoded_world_anchor, parse_pe_layout, plan_batch, scan_world_anchor,
    sort_by_begin, usable_function_ranges, BatchRules, PeLayout,
};
use wuma_tracker::process_list::{find_target_pid, unicode_path_ends_with_target};

fn utf16(s: &str) -> Vec<u16> {
    s.encode_utf16().collect()
}

#[test]
fn ioctl_code_is_buffered_any_access() {
    assert_eq!(ctl(0x802), 0x0022_2008);
    assert_eq!(IOCTL_GET_LOCATION, 0x0022_2008);
    assert_eq!(ctl(0x800), 0x0022_2000);
}

#[test]
fn name_prefixes_and_widening() {
    assert_eq!(ascii_prefix(TARGET_PROCESS_NAME, 14), b"Client-Win64-S".to_vec());
    assert_eq!(ascii_prefix(APP_PROCESS_NAME, 14), b"wuma-tracker.e".to_vec());
    let w = ascii_to_utf16("ab", 4);
    assert_eq!(w, vec![0x61, 0x62, 0, 0]);
}

#[test]
fn little_endian_reads() {
    let buf = [0x78u8, 0x56, 0x34, 0x12, 0xFF, 0xFF, 0xFF, 0xFF];
    assert_eq!(read_u32(&buf, 0), Some(0x1234_5678));
    assert_eq!(read_i32(&buf, 4), Some(-1));
    assert_eq!(read_u32(&buf, 4), Some(0xFFFF_FFFF));
    assert_eq!(read_u32(&buf, 5), None);
    assert_eq!(read_u32(&buf, usize::MAX), None);
    assert_eq!(read_u64(&buf, 0), Some(0xFFFF_FFFF_1234_5678));
    // a signed read is the unsigned one reinterpreted
    let neg = [0x00u8, 0x00, 0x00, 0x80];
    assert_eq!(read_i32(&neg, 0), Some(i32::MIN));
}

#[test]
fn pointer_range() {
    assert!(!is_valid_ptr(0));
    assert!(!is_valid_ptr(0xFFFF));
    assert!(is_valid_ptr(0x1_0000));
    assert!(is_valid_ptr(0x7FFF_FFFF_FFFF));
    assert!(!is_valid_ptr(0x8000_0000_0000));
}

#[test]
fn device_is_single_instance() {
    let mut dev = DeviceOwner::new();
    assert_eq!(dev.owner_pid(), 0);
    // only the client binary may open
    assert_eq!(dev.on_create(false, 10, true), STATUS_ACCESS_DENIED);
    assert_eq!(dev.owner_pid(), 0);
    // the first open wins
    assert_eq!(dev.on_create(true, 10, true), STATUS_SUCCESS);
    assert_eq!(dev.owner_pid(), 10);
    // a second one is refused while the first is open
    assert_eq!(dev.on_create(true, 11, true), STATUS_ACCESS_DENIED);
    assert_eq!(dev.owner_pid(), 10);
    // after close it can be opened again
    assert_eq!(dev.on_close(), STATUS_SUCCESS);
    assert_eq!(dev.owner_pid(), 0);
    assert_eq!(dev.on_create(true, 11, true), STATUS_SUCCESS);
    assert_eq!(dev.owner_pid(), 11);
}

#[test]
fn device_open_without_file_object_is_refused() {
    let mut dev = DeviceOwner::new();
    assert_eq!(dev.on_create(true, 10, false), STATUS_ACCESS_DENIED);
    assert_eq!(dev.owner_pid(), 0);
}

#[test]
fn ioctl_routing() {
    assert_eq!(route_ioctl(10, 10, IOCTL_GET_LOCATION), IoctlRoute::GetLocation);
    assert_eq!(route_ioctl(10, 11, IOCTL_GET_LOCATION), IoctlRoute::Denied);
    assert_eq!(route_ioctl(0, 0, IOCTL_GET_LOCATION), IoctlRoute::Denied);
    assert_eq!(route_ioctl(10, 10, 0x0022_2000), IoctlRoute::Unsupported);
    assert_eq!(refused_ioctl_completion(IoctlRoute::Denied), (STATUS_ACCESS_DENIED, 0));
    assert_eq!(refused_ioctl_completion(IoctlRoute::Unsupported), (STATUS_INVALID_PARAMETER, 0));
}

#[test]
fn location_request_buffers() {
    assert_eq!(admit_location_request(4, 28, false), Err((STATUS_INVALID_PARAMETER, 0)));
    assert_eq!(admit_location_request(0, 27, false), Err((STATUS_BUFFER_TOO_SMALL, 0)));
    assert_eq!(admit_location_request(0, 28, true), Err((STATUS_BUFFER_TOO_SMALL, 0)));
    assert_eq!(admit_location_request(0, 28, false), Ok(()));
    assert_eq!(admit_location_request(0, 64, false), Ok(()));
    assert_eq!(location_reply_stage(false, Ok(())), STAGE_TARGET_MISSING);
    assert_eq!(location_reply_stage(true, Err(4)), 4);
    assert_eq!(location_reply_stage(true, Ok(())), 0);
    assert_eq!(location_reply_completion(true), (STATUS_SUCCESS, GET_LOCATION_RESPONSE_SIZE));
    assert_eq!(location_reply_completion(false), (STATUS_NOT_FOUND, 0));
}

#[test]
fn ascii_case_folding() {
    assert_eq!(to_ascii_lower_u16('A' as u16), 'a' as u16);
    assert_eq!(to_ascii_lower_u16('Z' as u16), 'z' as u16);
    assert_eq!(to_ascii_lower_u16('a' as u16), 'a' as u16);
    assert_eq!(to_ascii_lower_u16('@' as u16), '@' as u16);
    assert_eq!(to_ascii_lower_u16(0xC0), 0xC0);
    // folding twice is folding once
    for ch in 0u16..=0x200 {
        assert_eq!(to_ascii_lower_u16(to_ascii_lower_u16(ch)), to_ascii_lower_u16(ch));
    }
}

#[test]
fn path_suffix_matching() {
    let path = utf16("\\Device\\HarddiskVolume3\\Games\\CLIENT-WIN64-SHIPPING.EXE");
    assert!(unicode_path_ends_with_target(&path));
    assert!(unicode_path_ends_with_target(&utf16("Client-Win64-Shipping.exe")));
    assert!(!unicode_path_ends_with_target(&utf16("Client-Win64-Shipping.ex")));
    assert!(!unicode_path_ends_with_target(&utf16("")));
    assert!(!unicode_path_ends_with_target(&utf16("EvilClient-Win64-Shipping.exe")));
    assert!(!unicode_path_ends_with_target(&utf16("C:\\Games\\EvilClient-Win64-Shipping.exe")));
    assert!(unicode_path_ends_with_target(&utf16("C:\\Games\\client-win64-shipping.EXE")));
    assert!(path_ends_with_ignore_ascii_case(&utf16("ABC"), &utf16("bc")));
    assert!(path_ends_with_ignore_ascii_case(&utf16("ABC"), &utf16("")));
    assert!(!path_ends_with_ignore_ascii_case(&utf16("BC"), &utf16("ABC")));
}

#[test]
fn image_name_prefixes() {
    assert!(caller_is_app(b"wuma-tracker.e"));
    assert!(caller_is_app(b"wuma-tracker.exe"));
    assert!(!caller_is_app(b"wuma-tracker"));
    assert!(!caller_is_app(b"notepad.exe"));
    assert!(cached_process_is_target(b"Client-Win64-S"));
    assert!(!cached_process_is_target(b"client-win64-s"));
    assert!(image_name_has_prefix(b"abc", b"ab"));
    assert!(!image_name_has_prefix(b"a", b"ab"));
}

fn put_u32(buf: &mut [u8], off: usize, v: u32) {
    buf[off..off + 4].copy_from_slice(&v.to_le_bytes());
}

fn put_u64(buf: &mut [u8], off: usize, v: u64) {
    buf[off..off + 8].copy_from_slice(&v.to_le_bytes());
}

#[test]
fn process_snapshot_walk() {
    let mut buf = vec![0u8; 0x200];
    // record 0: System
    put_u32(&mut buf, 0, 0x100);
    let sys = utf16("System");
    buf[0x38..0x3A].copy_from_slice(&((sys.len() * 2) as u16).to_le_bytes());
    put_u64(&mut buf, 0x40, 0x1000);
    put_u64(&mut buf, 0x50, 4);
    // record 1: the game
    let game = utf16("\\Device\\HarddiskVolume2\\WW\\client-win64-shipping.exe");
    put_u32(&mut buf, 0x100, 0);
    buf[0x138..0x13A].copy_from_slice(&((game.len() * 2) as u16).to_le_bytes());
    put_u64(&mut buf, 0x140, 0x2000);
    put_u64(&mut buf, 0x150, 4242);
    let mut names: HashMap<u64, Vec<u16>> = HashMap::new();
    names.insert(0x1000, sys);
    names.insert(0x2000, game);
    let read = |p: u64, n: usize| names.get(&p).map(|v| v[..n.min(v.len())].to_vec());
    assert_eq!(find_target_pid(&buf, read), Some(4242));

    // without the game record the walk ends with nothing
    put_u32(&mut buf, 0, 0);
    let read = |p: u64, n: usize| names.get(&p).map(|v| v[..n.min(v.len())].to_vec());
    assert_eq!(find_target_pid(&buf, read), None);
}

#[test]
fn process_snapshot_skips_null_names_and_short_buffers() {
    let mut buf = vec![0u8; 0x100];
    put_u32(&mut buf, 0, 0x80);
    put_u64(&mut buf, 0x50, 1);
    // both records have a null name buffer, so no name is read
    let calls = std::cell::Cell::new(0);
    let read = |_p: u64, _n: usize| {
        calls.set(calls.get() + 1);
        None
    };
    assert_eq!(find_target_pid(&buf, read), None);
    assert_eq!(calls.get(), 0);
    assert_eq!(find_target_pid(&[0u8; 0x20], |_p: u64, _n: usize| None), None);
}

const BASE: u64 = 0x7FF6_0000_0000;

fn synthetic_image() -> Vec<u8> {
    let mut img = vec![0u8; 0x10000];
    put_u32(&mut img, 0x3C, 0x80);
    put_u32(&mut img, 0x80 + 0x50, 0x10000);
    put_u32(&mut img, 0x80 + 160, 0x2000);
    put_u32(&mut img, 0x80 + 164, 24);
    // two functions: an unusable one (end beyond the image) and the real one
    put_u32(&mut img, 0x2000, 0x1000);
    put_u32(&mut img, 0x2004, 0x1100);
    put_u32(&mut img, 0x200C, 0x3000);
    put_u32(&mut img, 0x2010, 0x20000);
    // MOV RBX, [RIP+0x3000]; TEST RBX, RBX; JE ..; MOV R8B, 1
    let at = 0x1010;
    img[at..at + 3].copy_from_slice(&[0x48, 0x8B, 0x1D]);
    put_u32(&mut img, at + 3, 0x3000);
    img[at + 7..at + 15].copy_from_slice(&[0x48, 0x85, 0xDB, 0x74, 0x05, 0x41, 0xB0, 0x01]);
    img
}

fn image_reader(img: &[u8]) -> impl Fn(u64, usize) -> Option<Vec<u8>> + '_ {
    move |addr: u64, n: usize| {
        if addr < BASE {
            return None;
        }
        let off = (addr - BASE) as usize;
        if off + n > img.len() {
            return None;
        }
        Some(img[off..off + n].to_vec())
    }
}

#[test]
fn pe_header_fields() {
    let img = synthetic_image();
    assert_eq!(
        parse_pe_layout(&img[..4096]),
        Some(PeLayout { size_of_image: 0x10000, exception_rva: 0x2000, exception_size: 24 })
    );
    assert_eq!(parse_pe_layout(&img[..0x100]), None);
    assert_eq!(parse_pe_layout(&[0u8; 0x3F]), None);
}

#[test]
fn anchor_pattern_scan() {
    let img = synthetic_image();
    // the target is instruction + 7 + displacement
    assert_eq!(scan_world_anchor(&img[0x1000..0x1100], 0x1000, 0x10000), Some(0x1010 + 7 + 0x3000));
    // a target outside the image is no hit
    assert_eq!(scan_world_anchor(&img[0x1000..0x1100], 0x1000, 0x4000), None);
    // a wildcard byte may be anything
    let mut other = img[0x1000..0x1100].to_vec();
    other[0x10 + 11] = 0xEE;
    assert_eq!(scan_world_anchor(&other, 0x1000, 0x10000), Some(0x4017));
    assert_eq!(scan_world_anchor(&[0x48, 0x8B], 0, 0x10000), None);
}

#[test]
fn function_table_filtering_and_order() {
    let mut pd = vec![0u8; 36];
    put_u32(&mut pd, 0, 0x3000);
    put_u32(&mut pd, 4, 0x3100);
    put_u32(&mut pd, 12, 0x1000);
    put_u32(&mut pd, 16, 0x1100);
    put_u32(&mut pd, 24, 0);
    put_u32(&mut pd, 28, 0x10);
    let usable = usable_function_ranges(&pd, 0x10000);
    assert_eq!(usable, vec![(0x3000, 0x3100), (0x1000, 0x1100)]);
    assert_eq!(sort_by_begin(usable), vec![(0x1000, 0x1100), (0x3000, 0x3100)]);
}

#[test]
fn batching_of_adjacent_functions() {
    let rules = driver_batch_rules();
    assert_eq!(rules, BatchRules { max_gap: 4096, max_batch: 524288, saturating: true });
    let fs = vec![(0x1000u32, 0x1100u32), (0x1200, 0x1300), (0x9000, 0x9100)];
    assert_eq!(plan_batch(&fs, 0, rules), (0x1000, 0x1300, 2));
    assert_eq!(plan_batch(&fs, 2, rules), (0x9000, 0x9100, 3));
    let tight = BatchRules { max_gap: 0x50, max_batch: 524288, saturating: true };
    assert_eq!(plan_batch(&fs, 0, tight), (0x1000, 0x1100, 1));
    // an overlapping function joins under saturating distances only
    let overlap = vec![(0x1000u32, 0x1100u32), (0x1050, 0x1200)];
    assert_eq!(plan_batch(&overlap, 0, rules), (0x1000, 0x1200, 2));
    let wrapping = BatchRules { max_gap: 4096, max_batch: 262144, saturating: false };
    assert_eq!(plan_batch(&overlap, 0, wrapping), (0x1000, 0x1100, 1));
}

#[test]
fn world_anchor_found_in_image() {
    let img = synthetic_image();
    assert_eq!(find_hardcoded_world_anchor(BASE, image_reader(&img)), Some(0x4017));
    let mut broken = img.clone();
    put_u32(&mut broken, 0x80 + 160, 0);
    assert_eq!(find_hardcoded_world_anchor(BASE, image_reader(&broken)), None);
    assert_eq!(find_hardcoded_world_anchor(BASE, |_a: u64, _n: usize| None), None);
}

fn chain_memory(anchor: u64) -> HashMap<u64, u64> {
    let mut m = HashMap::new();
    let offsets = [440u64, 64, 0, 56, 832, 416];
    let mut p = anchor;
    for (i, off) in offsets.iter().enumerate() {
        let next = 0x2000_0000 + (i as u64 + 1) * 0x1000;
        m.insert(p + off, next);
        p = next;
    }
    m.insert(anchor + 0x38, 0x3000_0000);
    m
}

#[test]
fn player_position_chain_stages() {
    let anchor = 0x1000_0000u64;
    let mem = chain_memory(anchor);
    let read_ptr = |a: u64| mem.get(&a).copied();
    let root = 0x2000_6000u64;
    let read_transform = |a: u64| if a == root + 480 { Some(7u32) } else { None };
    let read_origin =
        |a: u64| if a == 0x3000_0000 + 0xC8 { Some(FIntVector { x: 1, y: -2, z: 3 }) } else { None };
    let out = read_player_world_position(Some(anchor), &read_ptr, &read_transform, &read_origin).unwrap();
    assert_eq!(out.transform, 7);
    assert_eq!(out.origin, FIntVector { x: 1, y: -2, z: 3 });

    assert_eq!(
        read_player_world_position(None, &read_ptr, &read_transform, &read_origin).err(),
        Some(1)
    );
    // break the third link: stage 4
    let mut broken = mem.clone();
    broken.remove(&(0x2000_2000 + 0));
    let read_broken = |a: u64| broken.get(&a).copied();
    assert_eq!(
        read_player_world_position(Some(anchor), &read_broken, &read_transform, &read_origin).err(),
        Some(4)
    );
    let no_transform = |_a: u64| None::<u32>;
    assert_eq!(
        read_player_world_position(Some(anchor), &read_ptr, &no_transform, &read_origin).err(),
        Some(8)
    );
    let mut no_level = mem.clone();
    no_level.remove(&(anchor + 0x38));
    let read_no_level = |a: u64| no_level.get(&a).copied();
    assert_eq!(
        read_player_world_position(Some(anchor), &read_no_level, &read_transform, &read_origin).err(),
        Some(9)
    );
    let no_origin = |_a: u64| None::<FIntVector>;
    assert_eq!(
        read_player_world_position(Some(anchor), &read_ptr, &read_transform, &no_origin).err(),
        Some(10)
    );
}

#[test]
fn locator_cache_reset_on_anchor_failure() {
    let mut c = LocatorCache::new();
    assert_eq!(c.cached_pid(), None);
    c.remember_pid(77);
    assert_eq!(c.cached_pid(), Some(77));
    assert!(c.validate_cached_pid(true, b"Client-Win64-Shipping.exe"));
    assert_eq!(c.cached_pid(), Some(77));
    c.record_read_result(Err(5));
    assert_eq!(c.cached_pid(), Some(77));
    c.record_read_result(Err(1));
    assert_eq!(c.cached_pid(), None);
    assert_eq!(c.cached_anchor_rva(), 0);
    c.remember_pid(78);
    assert!(!c.validate_cached_pid(true, b"explorer.exe"));
    assert_eq!(c.cached_pid(), None);
    c.remember_pid(79);
    assert!(!c.validate_cached_pid(false, b"Client-Win64-Shipping.exe"));
    assert_eq!(c.cached_pid(), None);
}

#[test]
fn locator_cache_remembers_scanned_anchor() {
    let img = synthetic_image();
    let mut c = LocatorCache::new();
    let ptr_mem: HashMap<u64, u64> = [(BASE + 0x4017, 0x5000_0000u64)].into_iter().collect();
    let read_ptr = |a: u64| ptr_mem.get(&a).copied();
    assert_eq!(c.resolve_world_anchor(BASE, &read_ptr, image_reader(&img)), Some(0x5000_0000));
    assert_eq!(c.cached_anchor_rva(), 0x4017);
    // the cached offset is used without reading the image again
    assert_eq!(c.resolve_world_anchor(BASE, &read_ptr, |_a: u64, _n: usize| None), Some(0x5000_0000));
    // a pointer that cannot be read gives nothing
    let none_ptr = |_a: u64| None;
    let mut fresh = LocatorCache::new();
    assert_eq!(fresh.resolve_world_anchor(BASE, &none_ptr, image_reader(&img)), None);
    assert_eq!(fresh.cached_anchor_rva(), 0);
}

#[test]
fn module_base_and_unicode_lengths() {
    assert_eq!(checked_module_base(0x7FF6_0000_0000), Some(0x7FF6_0000_0000));
    assert_eq!(checked_module_base(0), None);
    assert_eq!(checked_module_base(0xFFFF_8000_0000_0000), None);
    // "\\Device\\X" plus the terminator: 10 units
    assert_eq!(unicode_string_lengths(10), (18, 20));
    assert_eq!(unicode_string_lengths(1), (0, 2));
}
