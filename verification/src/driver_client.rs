//! The desktop client's side of the driver protocol: how a location reply is
//! judged, how a failing stage is described, and the attach check.

use vstd::prelude::*;
use vstd::string::*;
use crate::abi::GET_LOCATION_RESPONSE_SIZE;
use crate::device::{STAGE_DRIVER_UNAVAILABLE, STAGE_TARGET_MISSING};
use crate::errors::NativeError;
use crate::text::{decimal, decimal_string};

verus! {

/// The text describing a non-zero failure stage of a location reply.
pub open spec fn stage_text(stage: u8) -> Seq<char> {
    if stage == 1 {
        "메인 모듈 베이스 또는 World Anchor 탐색 실패"@
    } else if 2 <= stage <= 7 {
        "포인터 체인 "@ + decimal((stage - 1) as nat) + "단계 역참조 실패"@
    } else if stage == 8 {
        "좌표 트랜스폼(FTransform) 읽기 실패"@
    } else if stage == 9 {
        "PersistentLevel 포인터 읽기 실패"@
    } else if stage == 10 {
        "월드 원점(LastWorldOrigin) 읽기 실패"@
    } else {
        "드라이버 체인 실패 (알 수 없는 stage="@ + decimal(stage as nat) + ")"@
    }
}

/// Describes the stage at which the driver's coordinate read failed:
/// 1 the module base or world anchor, 2 to 7 the links of the pointer chain,
/// 8 the final transform, 9 the persistent-level pointer, 10 the world
/// origin.
pub fn describe_driver_stage(stage: u8) -> (r: String)
    ensures
        r@ == stage_text(stage),
{
    if stage == 1 {
        String::from_str("메인 모듈 베이스 또는 World Anchor 탐색 실패")
    } else if 2 <= stage && stage <= 7 {
        let mut s = String::from_str("포인터 체인 ");
        s.append(decimal_string((stage - 1) as u64).as_str());
        s.append("단계 역참조 실패");
        s
    } else if stage == 8 {
        String::from_str("좌표 트랜스폼(FTransform) 읽기 실패")
    } else if stage == 9 {
        String::from_str("PersistentLevel 포인터 읽기 실패")
    } else if stage == 10 {
        String::from_str("월드 원점(LastWorldOrigin) 읽기 실패")
    } else {
        let mut s = String::from_str("드라이버 체인 실패 (알 수 없는 stage=");
        s.append(decimal_string(stage as u64).as_str());
        s.append(")");
        s
    }
}

/// What a location reply means: `Ok` when the coordinates in it are valid.
/// A failed call or a reply of the wrong size means the driver cannot be
/// used; of the stages only a missing target process counts as the process
/// being gone, and any other non-zero stage is a pointer-chain failure.
pub open spec fn reply_outcome(call_ok: bool, returned: u32, stage: u8, r: Result<(), NativeError>) -> bool {
    if !call_ok || returned != GET_LOCATION_RESPONSE_SIZE {
        r == Err::<(), NativeError>(NativeError::DriverUnavailable)
    } else if stage == STAGE_TARGET_MISSING {
        r == Err::<(), NativeError>(NativeError::ProcessTerminated)
    } else if stage == STAGE_DRIVER_UNAVAILABLE {
        r == Err::<(), NativeError>(NativeError::DriverUnavailable)
    } else if stage != 0 {
        r matches Err(NativeError::PointerChainError { message }) && message@ == stage_text(stage)
    } else {
        r is Ok
    }
}

/// Judges the reply of one location request: whether the call succeeded,
/// how many bytes the driver wrote and the stage byte of the reply.
pub fn check_location_reply(call_ok: bool, returned: u32, stage: u8) -> (r: Result<(), NativeError>)
    ensures
        reply_outcome(call_ok, returned, stage, r),
{
    if !call_ok || returned as usize != GET_LOCATION_RESPONSE_SIZE {
        return Err(NativeError::DriverUnavailable);
    }
    if stage == STAGE_TARGET_MISSING {
        return Err(NativeError::ProcessTerminated);
    }
    if stage == STAGE_DRIVER_UNAVAILABLE {
        return Err(NativeError::DriverUnavailable);
    }
    if stage != 0 {
        return Err(NativeError::PointerChainError { message: describe_driver_stage(stage) });
    }
    Ok(())
}

/// The pid of the first process in `processes` whose executable name is
/// exactly `name`.
pub open spec fn first_pid_named(processes: Seq<(String, u32)>, name: Seq<char>) -> Option<u32>
    decreases processes.len(),
{
    if processes.len() == 0 {
        None
    } else if processes[0].0@ == name {
        Some(processes[0].1)
    } else {
        first_pid_named(processes.drop_first(), name)
    }
}

/// Finds a running process by its exact executable name in a snapshot of
/// `(executable name, pid)` entries.
pub fn find_pid_by_name(name: &str, processes: &[(String, u32)]) -> (r: Option<u32>)
    ensures
        r == first_pid_named(processes@, name@),
{
    let wanted = String::from_str(name);
    let mut i: usize = 0;
    assert(processes@.skip(0) =~= processes@);
    while i < processes.len()
        invariant
            i <= processes@.len(),
            wanted@ == name@,
            first_pid_named(processes@, name@) == first_pid_named(processes@.skip(i as int), name@),
        decreases processes@.len() - i,
    {
        proof {
            let rest = processes@.skip(i as int);
            assert(rest[0] == processes@[i as int]);
            assert(rest.drop_first() =~= processes@.skip(i + 1));
        }
        if processes[i].0 == wanted {
            return Some(processes[i].1);
        }
        i = i + 1;
    }
    assert(processes@.skip(i as int).len() == 0);
    None
}

/// The message an attach gives when the game is not running.
pub open spec fn not_running_text() -> Seq<char> {
    "게임이 실행 중이 아닙니다."@
}

/// The driver-backed process backend. It holds no handle: every poll opens
/// the device, asks once and closes it again.
#[derive(Debug)]
pub struct WinProcDriver;

impl WinProcDriver {
    /// Attaches to the game named `name`, given a snapshot of the running
    /// processes: fails at once when no process has exactly that name.
    pub fn new(name: &str, processes: &[(String, u32)]) -> (r: Result<WinProcDriver, String>)
        ensures
            r is Ok <==> first_pid_named(processes@, name@) is Some,
            r matches Err(m) ==> m@ == not_running_text(),
    {
        if find_pid_by_name(name, processes).is_none() {
            return Err(String::from_str("게임이 실행 중이 아닙니다."));
        }
        Ok(WinProcDriver)
    }

    /// The label shown for how coordinates are found.
    pub fn diagnostics(&self) -> (r: String)
        ensures
            r@ == "driver"@,
    {
        String::from_str("driver")
    }
}

} // verus!
