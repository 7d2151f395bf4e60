use std::collections::HashMap;

use wuma_tracker::collector::{offsets_loading_error, CollectorLoop, CollectorMessage, NativeCollector};
use wuma_tracker::coord_chain::FIntVector;
use wuma_tracker::driver_client::{check_location_reply, describe_driver_stage, find_pid_by_name, WinProcDriver};
use wuma_tracker::errors::{NativeError, UserMessageKind};
use wuma_tracker::game_paths::{
    candidate_on_drive, game_path_candidates, macos_game_candidates, scan_game_candidates, MACOS_APP_PATH,
};
use wuma_tracker::helper::{helper_reply_stage, is_location_request, pipe_sddl};
use wuma_tracker::keyed_table::KeyedTable;
use wuma_tracker::offsets::{
    apply_global_state, get_remote_urls, server_endpoint, starts_in_tray, GWorldScanConfig, GlobalState,
    LocalStorageConfig, WuwaOffset,
};
use wuma_tracker::process_backend::{classify_ptr, select_and_walk, walk_pointer_chain};
use wuma_tracker::room_code::{compose_room_code, generate_room_code_base36, to_base36_string, RANDOM_MODULO};
use wuma_tracker::signaling::{
    external_server_url, reconnect_delay_secs, reconnect_plan, room_code_from_url, Keepalive, LinkAction, LinkEvent,
};
use wuma_tracker::supervisor::{
    apply_attach_result, apply_external_connect, apply_external_session_end, apply_server_start,
    note_external_signal, peer_signal_action, ClientCounter, PeerSignalAction, CollectorLifecycle, FrontendUpdate, PeerAction, SignalKind, WsRouteInfo,
};

fn chain_error(message: &str) -> NativeError {
    NativeError::PointerChainError { message: message.to_string() }
}

#[test]
fn pointer_classes() {
    assert_eq!(classify_ptr(0), "NULL");
    assert_eq!(classify_ptr(0x10), "~NULL");
    assert_eq!(classify_ptr(0xFFFF), "~NULL");
    assert_eq!(classify_ptr(0x8000_0000_0000), "!canon");
    assert_eq!(classify_ptr(0x1_0008), "!align");
    assert_eq!(classify_ptr(0x1_0010), "ok");
    assert_eq!(classify_ptr(0x7FFF_FFFF_FFF0), "ok");
}

#[test]
fn user_messages_by_marker() {
    assert_eq!(NativeError::ProcessTerminated.user_message(), "게임 프로세스가 종료되었습니다.");
    assert_eq!(chain_error("read [ACCESS] x").user_message(), "메모리 접근 거부 (ACE 핸들 권한 박탈)");
    assert_eq!(chain_error("[INV_HDL]").user_message(), "프로세스 핸들이 무효화되었습니다.");
    assert_eq!(
        NativeError::ValueReadError { message: "[PARTIAL] copy".to_string() }.user_message(),
        "ACE 메모리 보호 중 (게임 초기화/로딩 중...)"
    );
    assert_eq!(chain_error("chain['APawn' 0+10 NULL]: x").user_message(), "게임 월드 초기화 중 (잠시 대기...)");
    assert_eq!(chain_error("addr=0").user_message(), "게임 월드 초기화 중 (잠시 대기...)");
    assert_eq!(chain_error("something else").user_message(), "메모리 읽기 실패");
    // the first marker in the checking order wins
    assert_eq!(chain_error("NULL [ACCESS]").kind(), UserMessageKind::AccessDenied);
    assert_eq!(NativeError::DriverUnavailable.user_message(), "드라이버를 사용할 수 없습니다.");
    assert_eq!(NativeError::ProcessTerminated.to_display_string(), "proc_terminated");
    assert_eq!(chain_error("m").to_display_string(), "m");
}

fn offset(name: &str, gworld: u64) -> WuwaOffset {
    WuwaOffset {
        name: name.to_string(),
        global_gworld: gworld,
        uworld_persistentlevel: 0x30,
        uworld_owninggameinstance: 0x1B8,
        ulevel_lastworldorigin: 0xC8,
        ugameinstance_localplayers: 0x40,
        uplayer_playercontroller: 0x38,
        aplayercontroller_acknowlegedpawn: 0x340,
        aactor_rootcomponent: 0x1A0,
        uscenecomponent_componenttoworld: 0x1E0,
    }
}

fn world_memory(o: &WuwaOffset, gworld: u64) -> HashMap<u64, u64> {
    let mut m = HashMap::new();
    let links = [
        o.uworld_owninggameinstance,
        o.ugameinstance_localplayers,
        0,
        o.uplayer_playercontroller,
        o.aplayercontroller_acknowlegedpawn,
        o.aactor_rootcomponent,
    ];
    let mut p = gworld;
    for (i, off) in links.iter().enumerate() {
        let next = 0x5000_0000 + (i as u64 + 1) * 0x1000;
        m.insert(p + off, next);
        p = next;
    }
    m.insert(gworld + o.uworld_persistentlevel, 0x6000_0000);
    m
}

fn not_mapped(a: u64) -> NativeError {
    NativeError::ValueReadError { message: format!("unmapped {:X}", a) }
}

#[test]
fn pointer_chain_walk() {
    let o = offset("v1", 0x100);
    let gworld = 0x4000_0000u64;
    let mem = world_memory(&o, gworld);
    let read_u64 = |a: u64| mem.get(&a).copied().ok_or_else(|| not_mapped(a));
    let root = 0x5000_6000u64;
    let read_transform = |a: u64| if a == root + 0x1E0 { Ok(5u8) } else { Err(not_mapped(a)) };
    let read_ivec = |a: u64| {
        if a == 0x6000_0000 + 0xC8 {
            Ok(FIntVector { x: 9, y: 8, z: 7 })
        } else {
            Err(not_mapped(a))
        }
    };
    let out = walk_pointer_chain(&read_u64, &read_transform, &read_ivec, gworld, &o).unwrap();
    assert_eq!(out.transform, 5);
    assert_eq!(out.origin, FIntVector { x: 9, y: 8, z: 7 });

    let mut broken = mem.clone();
    broken.remove(&(0x5000_3000 + 0x38));
    let read_broken = |a: u64| broken.get(&a).copied().ok_or_else(|| not_mapped(a));
    let err = walk_pointer_chain(&read_broken, &read_transform, &read_ivec, gworld, &o).err().unwrap();
    assert_eq!(
        err.to_display_string(),
        "chain['PlayerController' 50003000+38 ok]: unmapped 50003038"
    );

    let no_transform = |a: u64| Err::<u8, NativeError>(not_mapped(a));
    let err = walk_pointer_chain(&read_u64, &no_transform, &read_ivec, gworld, &o).err().unwrap();
    assert!(matches!(err, NativeError::ValueReadError { .. }));
    assert_eq!(err.to_display_string(), "ftrans@500061E0: unmapped 500061E0");

    let mut no_level = mem.clone();
    no_level.remove(&(gworld + 0x30));
    let read_no_level = |a: u64| no_level.get(&a).copied().ok_or_else(|| not_mapped(a));
    let err = walk_pointer_chain(&read_no_level, &read_transform, &read_ivec, gworld, &o).err().unwrap();
    assert!(matches!(err, NativeError::PointerChainError { .. }));
    assert_eq!(err.to_display_string(), "plevel@40000030: unmapped 40000030");

    let no_ivec = |a: u64| Err::<FIntVector, NativeError>(not_mapped(a));
    let err = walk_pointer_chain(&read_u64, &read_transform, &no_ivec, gworld, &o).err().unwrap();
    assert_eq!(err.to_display_string(), "worigin@600000C8: unmapped 600000C8");
}

#[test]
fn offset_variant_selection_and_cache() {
    let good = offset("good", 0x200);
    let bad = offset("bad", 0x100);
    let gworld = 0x4000_0000u64;
    let mem = world_memory(&good, gworld);
    let read_gworld = |o: &WuwaOffset| {
        if o.global_gworld == 0x200 {
            Ok(gworld)
        } else {
            Err(chain_error("gworld unreadable"))
        }
    };
    let read_u64 = |a: u64| mem.get(&a).copied().ok_or_else(|| not_mapped(a));
    let read_transform = |_a: u64| Ok::<u8, NativeError>(1);
    let read_ivec = |_a: u64| Ok::<FIntVector, NativeError>(FIntVector { x: 0, y: 0, z: 0 });

    let mut cached: Option<WuwaOffset> = None;
    let offsets = vec![bad.clone(), good.clone()];
    let out = select_and_walk(&mut cached, &offsets, &read_gworld, &read_u64, &read_transform, &read_ivec);
    assert!(out.is_ok());
    assert_eq!(cached.as_ref().map(|o| o.name.clone()), Some("good".to_string()));

    // the cached variant is tried first and kept
    let out = select_and_walk(&mut cached, &[], &read_gworld, &read_u64, &read_transform, &read_ivec);
    assert!(out.is_ok());
    assert!(cached.is_some());

    // every variant failing gives the first error and clears the cache
    let offsets = vec![bad.clone(), bad.clone()];
    let mut cached = Some(bad.clone());
    let err = select_and_walk(&mut cached, &offsets, &read_gworld, &read_u64, &read_transform, &read_ivec)
        .err()
        .unwrap();
    assert_eq!(err.to_display_string(), "gworld unreadable");
    assert!(cached.is_none());

    // no variants at all
    let mut cached: Option<WuwaOffset> = None;
    let err = select_and_walk(&mut cached, &[], &read_gworld, &read_u64, &read_transform, &read_ivec)
        .err()
        .unwrap();
    assert_eq!(err.to_display_string(), "사용 가능한 버전 값을 찾지 못했습니다.");
}

#[test]
fn driver_stage_descriptions() {
    assert_eq!(describe_driver_stage(1), "메인 모듈 베이스 또는 World Anchor 탐색 실패");
    assert_eq!(describe_driver_stage(2), "포인터 체인 1단계 역참조 실패");
    assert_eq!(describe_driver_stage(7), "포인터 체인 6단계 역참조 실패");
    assert_eq!(describe_driver_stage(8), "좌표 트랜스폼(FTransform) 읽기 실패");
    assert_eq!(describe_driver_stage(9), "PersistentLevel 포인터 읽기 실패");
    assert_eq!(describe_driver_stage(10), "월드 원점(LastWorldOrigin) 읽기 실패");
    assert_eq!(describe_driver_stage(11), "드라이버 체인 실패 (알 수 없는 stage=11)");
    assert_eq!(describe_driver_stage(200), "드라이버 체인 실패 (알 수 없는 stage=200)");
}

#[test]
fn driver_reply_judgement() {
    assert!(check_location_reply(true, 28, 0).is_ok());
    assert!(matches!(check_location_reply(false, 28, 0), Err(NativeError::DriverUnavailable)));
    assert!(matches!(check_location_reply(true, 27, 0), Err(NativeError::DriverUnavailable)));
    assert!(matches!(check_location_reply(true, 28, 0xFE), Err(NativeError::ProcessTerminated)));
    assert!(matches!(check_location_reply(true, 28, 0xFF), Err(NativeError::DriverUnavailable)));
    let err = check_location_reply(true, 28, 3).err().unwrap();
    assert_eq!(err.to_display_string(), "포인터 체인 2단계 역참조 실패");
}

#[test]
fn attach_needs_a_running_game() {
    let procs = vec![("explorer.exe".to_string(), 1u32), ("Client-Win64-Shipping.exe".to_string(), 9)];
    assert_eq!(find_pid_by_name("Client-Win64-Shipping.exe", &procs), Some(9));
    assert_eq!(find_pid_by_name("client-win64-shipping.exe", &procs), None);
    assert!(WinProcDriver::new("Client-Win64-Shipping.exe", &procs).is_ok());
    assert_eq!(WinProcDriver::new("Client-Win64-Shipping.exe", &[]).err(), Some("게임이 실행 중이 아닙니다.".to_string()));
    assert_eq!(WinProcDriver.diagnostics(), "driver");
}

#[test]
fn base36_encoding() {
    assert_eq!(to_base36_string(0, 8), "00000000");
    assert_eq!(to_base36_string(0, 0), "");
    assert_eq!(to_base36_string(35, 3), "00Z");
    assert_eq!(to_base36_string(36, 1), "10");
    assert_eq!(to_base36_string(u64::MAX, 8), "3W5E11264SGSF");
    assert_eq!(u64::from_str_radix(&to_base36_string(123_456_789, 8), 36).unwrap(), 123_456_789);
}

#[test]
fn room_code_layout() {
    // time 10 ms steps: 1_000 ms -> 100; random 0
    let code = compose_room_code(1_000, 0);
    assert_eq!(code, "0002S000");
    assert_eq!(code.len(), 8);
    let code = compose_room_code(1_700_000_000_123, 46_655);
    assert_eq!(code.len(), 8);
    assert!(code.ends_with("ZZZ"));
    let time_part = (1_700_000_000_123u64 / 10) % 60_466_176;
    assert_eq!(&code[..5], to_base36_string(time_part, 5));
    let fresh = generate_room_code_base36().unwrap();
    assert_eq!(fresh.len(), 8);
    assert!(fresh.chars().all(|c| c.is_ascii_digit() || c.is_ascii_uppercase()));
    assert!(u64::from_str_radix(&fresh[5..], 36).unwrap() < RANDOM_MODULO);
}

#[test]
fn game_path_candidates_on_every_drive() {
    let all = game_path_candidates();
    assert_eq!(all.len(), 26);
    assert_eq!(
        all[0],
        "A:\\Program Files\\Wuthering Waves\\Wuthering Waves Game\\Client\\Binaries\\Win64\\Client-Win64-Shipping.exe"
    );
    assert!(all[25].starts_with("Z:\\Program Files"));
    assert_eq!(candidate_on_drive(2), all[2]);
    let found = scan_game_candidates(&|p: &String| p.starts_with("C:") || p.starts_with("E:"));
    assert_eq!(found.len(), 2);
    assert!(found[0].starts_with("C:\\"));
    assert!(found[1].starts_with("E:\\"));
    assert!(scan_game_candidates(&|_p: &String| false).is_empty());
    assert_eq!(macos_game_candidates(true), vec![MACOS_APP_PATH.to_string()]);
    assert!(macos_game_candidates(false).is_empty());
}

#[test]
fn collector_reports_offset_once() {
    let mut state = CollectorLoop::new();
    let step = state.on_poll(Ok(1u8), "driver".to_string(), 0);
    assert!(!step.stop);
    assert_eq!(step.messages.len(), 2);
    assert!(matches!(&step.messages[0], CollectorMessage::OffsetFound(n) if n == "driver"));
    assert!(matches!(step.messages[1], CollectorMessage::Data(1)));
    let step = state.on_poll(Ok(2u8), "driver".to_string(), 100);
    assert_eq!(step.messages.len(), 1);
    assert!(matches!(step.messages[0], CollectorMessage::Data(2)));
    let step = state.on_poll(Ok(3u8), "mac:v2".to_string(), 200);
    assert_eq!(step.messages.len(), 2);
}

#[test]
fn collector_throttles_errors() {
    let mut state = CollectorLoop::new();
    let step = state.on_poll(Err::<u8, _>(chain_error("x")), "driver".to_string(), 1_000);
    assert_eq!(step.messages.len(), 1);
    assert!(matches!(&step.messages[0], CollectorMessage::TemporalError(t) if t == "메모리 읽기 실패"));
    let step = state.on_poll(Err::<u8, _>(chain_error("x")), "driver".to_string(), 5_999);
    assert!(step.messages.is_empty());
    let step = state.on_poll(Err::<u8, _>(chain_error("x")), "driver".to_string(), 6_000);
    assert_eq!(step.messages.len(), 1);
    // a success clears the throttle
    let _ = state.on_poll(Ok(1u8), "driver".to_string(), 6_100);
    let step = state.on_poll(Err::<u8, _>(offsets_loading_error()), "driver".to_string(), 6_200);
    assert_eq!(step.messages.len(), 1);
    assert!(!step.stop);
}

#[test]
fn collector_stops_when_process_ends() {
    let mut state = CollectorLoop::new();
    let step = state.on_poll(Err::<u8, _>(NativeError::ProcessTerminated), "driver".to_string(), 0);
    assert!(step.stop);
    assert_eq!(step.messages.len(), 1);
    assert!(matches!(step.messages[0], CollectorMessage::Terminated));
}

#[test]
fn reconnect_backoff() {
    assert_eq!(reconnect_delay_secs(0), 5);
    assert_eq!(reconnect_delay_secs(1), 10);
    assert_eq!(reconnect_delay_secs(2), 20);
    assert_eq!(reconnect_delay_secs(3), 40);
    assert_eq!(reconnect_delay_secs(4), 60);
    assert_eq!(reconnect_delay_secs(u32::MAX), 60);
    assert_eq!(reconnect_plan(false, 0), Some((5, 1)));
    assert_eq!(reconnect_plan(false, 2), Some((20, 3)));
    assert_eq!(reconnect_plan(false, 3), None);
    assert_eq!(reconnect_plan(true, 0), None);
}

#[test]
fn keepalive_pings_then_drops() {
    let mut k = Keepalive::new();
    assert_eq!(k.on_event(LinkEvent::Timeout), LinkAction::SendPing);
    assert_eq!(k.on_event(LinkEvent::Timeout), LinkAction::Disconnect);
    let mut k = Keepalive::new();
    assert_eq!(k.on_event(LinkEvent::Timeout), LinkAction::SendPing);
    assert_eq!(k.on_event(LinkEvent::Pong), LinkAction::Ignore);
    assert_eq!(k.on_event(LinkEvent::Timeout), LinkAction::SendPing);
    assert_eq!(k.on_event(LinkEvent::Text), LinkAction::HandleText);
    assert!(!k.pong_pending);
    assert_eq!(k.on_event(LinkEvent::Close), LinkAction::Disconnect);
    assert_eq!(Keepalive::new().on_event(LinkEvent::StreamEnd), LinkAction::Disconnect);
    assert_eq!(Keepalive::new().on_event(LinkEvent::ReceiveError), LinkAction::Disconnect);
}

#[test]
fn room_code_round_trips_through_url() {
    let url = external_server_url("AB12CD34");
    assert_eq!(url, "wss://concourse.wuwa.moe/AB12CD34?role=server");
    assert_eq!(room_code_from_url(&url), "AB12CD34");
    assert_eq!(room_code_from_url("wss://x/y/CODE?role=server?role=server"), "CODE");
    assert_eq!(room_code_from_url("plain"), "plain");
    assert_eq!(room_code_from_url("a/"), "");
    let fresh = generate_room_code_base36().unwrap();
    assert_eq!(room_code_from_url(&external_server_url(&fresh)), fresh);
}

#[test]
fn keyed_table_read_after_write() {
    let mut t: KeyedTable<u32> = KeyedTable::new();
    assert_eq!(t.len(), 0);
    t.insert("a".to_string(), 1);
    t.insert("b".to_string(), 2);
    t.insert("a".to_string(), 3);
    assert_eq!(t.len(), 2);
    assert_eq!(t.get("a"), Some(&3));
    assert_eq!(t.get("b"), Some(&2));
    assert!(t.contains_key("b"));
    assert_eq!(t.remove("a"), Some(3));
    assert_eq!(t.remove("a"), None);
    assert_eq!(t.get("a"), None);
    assert_eq!(t.len(), 1);
    let (k, v) = t.entry_at(0);
    assert_eq!((k.as_str(), *v), ("b", 2));
}

#[test]
fn switch_table_follows_external_announcements() {
    let mut t: KeyedTable<WsRouteInfo<u8>> = KeyedTable::new();
    t.insert("local".to_string(), WsRouteInfo::Local(7));
    note_external_signal(&mut t, "ext".to_string(), SignalKind::NewPeer);
    assert!(matches!(t.get("ext"), Some(WsRouteInfo::External)));
    note_external_signal(&mut t, "ext".to_string(), SignalKind::Answer);
    assert!(t.contains_key("ext"));
    note_external_signal(&mut t, "ext".to_string(), SignalKind::PeerLeft);
    assert!(!t.contains_key("ext"));
    assert!(matches!(t.get("local"), Some(WsRouteInfo::Local(7))));
}

#[test]
fn collector_lifecycle_runs_only_when_attached() {
    let mut life = CollectorLifecycle::new();
    assert!(!life.try_start());
    assert_eq!(life.on_peer_signal(SignalKind::NewPeer), (PeerAction::AddExternalPeer, false));
    let mut state = GlobalState::default();
    assert!(apply_attach_result(&mut life, &mut state, &Ok(())));
    assert_eq!(state.proc_state, 1);
    assert!(life.running());
    // a second start does not spawn another loop
    assert!(!life.try_start());
    assert_eq!(life.on_peer_signal(SignalKind::NewLocalPeer), (PeerAction::AddLocalPeer, false));
    assert_eq!(life.on_peer_signal(SignalKind::PeerLeft), (PeerAction::DropPeer, false));
    assert_eq!(life.on_peer_signal(SignalKind::IceCandidate), (PeerAction::Forward, false));
    let (update, cancel) = life.on_collector_message(&mut state, CollectorMessage::<u8>::OffsetFound("driver".to_string()));
    assert!(matches!(update, FrontendUpdate::StateOnly));
    assert!(!cancel);
    assert_eq!(state.active_offset_name, Some("driver".to_string()));
    let (update, _) = life.on_collector_message(&mut state, CollectorMessage::Data(4u8));
    assert!(matches!(update, FrontendUpdate::Location(4)));
    let (update, cancel) = life.on_collector_message(&mut state, CollectorMessage::<u8>::Terminated);
    assert!(matches!(update, FrontendUpdate::StateOnly));
    assert!(cancel);
    assert_eq!(state.proc_state, 0);
    assert!(!life.attached());
    assert!(!life.running());
    assert!(!apply_attach_result(&mut life, &mut state, &Err("x".to_string())));
    assert!(!life.attached());
}

#[test]
fn front_end_state_updates() {
    let mut state = GlobalState::default();
    apply_server_start(&mut state, Ok("127.0.0.1:46821".to_string()));
    assert_eq!(state.server_state, 1);
    assert_eq!(state.connection_url, Some("127.0.0.1:46821".to_string()));
    apply_server_start(&mut state, Err("bind".to_string()));
    assert_eq!(state.server_state, 0);
    assert_eq!(state.connection_url, None);
    assert_eq!(apply_external_connect(&mut state, "CODE".to_string(), Ok(())), Ok("CODE".to_string()));
    assert_eq!(state.external_connection_code, Some("CODE".to_string()));
    apply_external_session_end(&mut state);
    assert_eq!(state.external_connection_code, None);
    assert_eq!(apply_external_connect(&mut state, "C2".to_string(), Err("down".to_string())), Err("down".to_string()));
    assert_eq!(state.external_connection_code, None);
}

#[test]
fn helper_protocol() {
    assert!(is_location_request(&[1, 0, 0, 0]));
    assert!(!is_location_request(&[0, 0, 0, 1]));
    assert!(!is_location_request(&[2, 0, 0, 0]));
    assert_eq!(helper_reply_stage(false, 28, 0), 0xFF);
    assert_eq!(helper_reply_stage(true, 0, 0), 0xFE);
    assert_eq!(helper_reply_stage(true, 28, 3), 3);
    assert_eq!(pipe_sddl("S-1-5-21-1"), "D:P(A;;GRGW;;;BA)(A;;GRGW;;;S-1-5-21-1)");
}

#[test]
fn settings_defaults() {
    let cfg = LocalStorageConfig::default();
    assert_eq!(server_endpoint(&cfg), ("127.0.0.1".to_string(), 46821));
    assert!(!starts_in_tray(&cfg));
    let cfg = LocalStorageConfig { ip: Some("0.0.0.0".to_string()), port: Some(9), start_in_tray: Some(true), ..cfg };
    assert_eq!(server_endpoint(&cfg), ("0.0.0.0".to_string(), 9));
    assert!(starts_in_tray(&cfg));
    let scan = GWorldScanConfig::default();
    assert!(scan.enabled);
    assert_eq!(scan.prefix, "48 8B 1D");
    assert_eq!(scan.suffix, "48 85 DB 74 ?? 41 B0 01");
    let g = GlobalState::default();
    assert_eq!(g.proc_state, 0);
    assert_eq!(g.active_offset_name, None);
}

#[test]
fn collector_attaches_by_exact_name() {
    let procs = vec![("Client-Win64-Shipping.exe".to_string(), 3u32)];
    assert!(NativeCollector::new("Client-Win64-Shipping.exe", &procs).is_ok());
    assert_eq!(NativeCollector::new("Other.exe", &procs).err(), Some("게임이 실행 중이 아닙니다.".to_string()));
}

#[test]
fn ticker_runs_while_clients_are_open() {
    let mut c = ClientCounter::new();
    assert!(c.on_open());
    assert!(!c.on_open());
    assert!(!c.on_close());
    assert!(c.on_close());
    assert_eq!(c.count, 0);
    // a close without an open wraps like the atomic counter
    assert!(!c.on_close());
    assert_eq!(c.count, usize::MAX);
}

#[test]
fn global_state_changes_are_announced_once() {
    let mut s = GlobalState::default();
    assert!(!apply_global_state(&mut s, GlobalState::default()));
    let next = GlobalState { proc_state: 1, ..GlobalState::default() };
    assert!(apply_global_state(&mut s, next.clone()));
    assert_eq!(s, next);
    assert!(!apply_global_state(&mut s, next.clone()));
    let named = GlobalState { active_offset_name: Some("driver".to_string()), ..next };
    assert!(apply_global_state(&mut s, named));
    assert_eq!(s.active_offset_name, Some("driver".to_string()));
}

#[test]
fn offset_sources_in_order() {
    assert_eq!(
        get_remote_urls(false),
        vec![
            "https://wuwa.moe/tracker-offsets-v2.json",
            "https://raw.githubusercontent.com/wuwamoe/wuwa-moe/refs/heads/main/static/tracker-offsets-v2.json",
        ]
    );
    let dev = get_remote_urls(true);
    assert_eq!(dev.len(), 3);
    assert_eq!(dev[0], "http://localhost:1420/tracker-offsets-v2.json");
}

#[test]
fn peer_signals_need_a_known_peer() {
    let mut peers: KeyedTable<u8> = KeyedTable::new();
    assert_eq!(
        peer_signal_action(&peers, "c1", SignalKind::Answer),
        Err("Received signal for non-existent peer: c1".to_string())
    );
    peers.insert("c1".to_string(), 0);
    assert_eq!(peer_signal_action(&peers, "c1", SignalKind::Answer), Ok(PeerSignalAction::SetRemoteDescription));
    assert_eq!(peer_signal_action(&peers, "c1", SignalKind::IceCandidate), Ok(PeerSignalAction::AddIceCandidate));
    assert_eq!(peer_signal_action(&peers, "c1", SignalKind::Offer), Ok(PeerSignalAction::Ignore));
}

#[test]
fn base36_padding_keeps_length_and_order() {
    // length is the larger of the width and the digit count
    assert_eq!(to_base36_string(36 * 36, 1).len(), 3);
    assert_eq!(to_base36_string(35, 4).len(), 4);
    assert_eq!(to_base36_string(0, 3), "000");
    // zero-padded texts sort like the numbers
    let values = [0u64, 1, 9, 10, 35, 36, 1295, 1296, 46655];
    for w in values.windows(2) {
        let a = to_base36_string(w[0], 3);
        let b = to_base36_string(w[1], 3);
        assert_eq!(a.len(), 3);
        assert!(a < b, "{} < {}", a, b);
    }
    for v in values {
        assert_eq!(u64::from_str_radix(&to_base36_string(v, 3), 36), Ok(v));
    }
}

#[test]
fn ticker_runs_while_a_channel_is_open() {
    let mut c = ClientCounter::new();
    let mut running = false;
    let mut open = 0usize;
    for ev in [true, true, false, true, false, false, true, false] {
        if ev {
            if c.on_open() {
                running = true;
            }
            open += 1;
        } else {
            if c.on_close() {
                running = false;
            }
            open -= 1;
        }
        assert_eq!(c.count, open);
        assert_eq!(running, open > 0);
    }
}

#[test]
fn located_polls_send_labels_only_on_change() {
    let mut state = CollectorLoop::new();
    let mut sent = Vec::new();
    for (loc, label) in [(1u8, "a"), (2, "a"), (3, "b"), (4, "b"), (5, "a")] {
        let step = state.on_poll(Ok(loc), label.to_string(), 0);
        assert!(!step.stop);
        for m in step.messages {
            sent.push(match m {
                CollectorMessage::Data(l) => format!("D{}", l),
                CollectorMessage::OffsetFound(s) => format!("O{}", s),
                _ => "?".to_string(),
            });
        }
    }
    assert_eq!(sent, vec!["Oa", "D1", "D2", "Ob", "D3", "D4", "Oa", "D5"]);
}
