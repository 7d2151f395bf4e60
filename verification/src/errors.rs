//! Errors of a coordinate poll and their user-facing text.

use vstd::prelude::*;
use vstd::string::*;
use crate::text::{contains_text, str_contains};

verus! {

/// Why a poll did not produce coordinates.
#[derive(Debug)]
pub enum NativeError {
    /// The target process is gone.
    ProcessTerminated,
    /// Following the pointer chain failed.
    PointerChainError { message: String },
    /// Reading a value at the end of the chain failed.
    ValueReadError { message: String },
    /// The driver device could not be opened or answered unexpectedly.
    DriverUnavailable,
}

/// The text an error displays as.
pub open spec fn display_text(e: NativeError) -> Seq<char> {
    match e {
        NativeError::ProcessTerminated => "proc_terminated"@,
        NativeError::PointerChainError { message } => message@,
        NativeError::ValueReadError { message } => message@,
        NativeError::DriverUnavailable => "driver_unavailable"@,
    }
}

/// Which user-facing text an error gets.
#[derive(Clone, Copy, Debug, PartialEq, Eq)]
pub enum UserMessageKind {
    /// The process ended.
    Terminated,
    /// The game's anti-cheat took the handle's access away.
    AccessDenied,
    /// The process handle became invalid.
    InvalidHandle,
    /// Memory is protected while the game loads.
    Partial,
    /// The game world is not initialised yet.
    WorldInitialising,
    /// Any other read failure.
    ReadFailed,
    /// The driver cannot be used.
    DriverUnavailable,
}

/// The kind of message a read-failure message maps to, by the first marker
/// it holds.
pub open spec fn message_kind(message: Seq<char>) -> UserMessageKind {
    if contains_text(message, "[ACCESS]"@) {
        UserMessageKind::AccessDenied
    } else if contains_text(message, "[INV_HDL]"@) {
        UserMessageKind::InvalidHandle
    } else if contains_text(message, "[PARTIAL]"@) {
        UserMessageKind::Partial
    } else if contains_text(message, "NULL"@) || contains_text(message, "addr=0"@) {
        UserMessageKind::WorldInitialising
    } else {
        UserMessageKind::ReadFailed
    }
}

/// The kind of message an error maps to.
pub open spec fn error_kind(e: NativeError) -> UserMessageKind {
    match e {
        NativeError::ProcessTerminated => UserMessageKind::Terminated,
        NativeError::PointerChainError { message } => message_kind(message@),
        NativeError::ValueReadError { message } => message_kind(message@),
        NativeError::DriverUnavailable => UserMessageKind::DriverUnavailable,
    }
}

/// The user-facing text of each kind.
pub open spec fn kind_text(k: UserMessageKind) -> Seq<char> {
    match k {
        UserMessageKind::Terminated => "게임 프로세스가 종료되었습니다."@,
        UserMessageKind::AccessDenied => "메모리 접근 거부 (ACE 핸들 권한 박탈)"@,
        UserMessageKind::InvalidHandle => "프로세스 핸들이 무효화되었습니다."@,
        UserMessageKind::Partial => "ACE 메모리 보호 중 (게임 초기화/로딩 중...)"@,
        UserMessageKind::WorldInitialising => "게임 월드 초기화 중 (잠시 대기...)"@,
        UserMessageKind::ReadFailed => "메모리 읽기 실패"@,
        UserMessageKind::DriverUnavailable => "드라이버를 사용할 수 없습니다."@,
    }
}

fn message_kind_of(message: &String) -> (r: UserMessageKind)
    ensures
        r == message_kind(message@),
{
    let m = message.as_str();
    if str_contains(m, "[ACCESS]") {
        UserMessageKind::AccessDenied
    } else if str_contains(m, "[INV_HDL]") {
        UserMessageKind::InvalidHandle
    } else if str_contains(m, "[PARTIAL]") {
        UserMessageKind::Partial
    } else if str_contains(m, "NULL") || str_contains(m, "addr=0") {
        UserMessageKind::WorldInitialising
    } else {
        UserMessageKind::ReadFailed
    }
}

impl NativeError {
    /// The kind of user-facing message this error gets.
    pub fn kind(&self) -> (r: UserMessageKind)
        ensures
            r == error_kind(*self),
    {
        match self {
            NativeError::ProcessTerminated => UserMessageKind::Terminated,
            NativeError::PointerChainError { message } => message_kind_of(message),
            NativeError::ValueReadError { message } => message_kind_of(message),
            NativeError::DriverUnavailable => UserMessageKind::DriverUnavailable,
        }
    }

    /// Short Korean text for the front end.
    pub fn user_message(&self) -> (r: &'static str)
        ensures
            r@ == kind_text(error_kind(*self)),
    {
        match self.kind() {
            UserMessageKind::Terminated => "게임 프로세스가 종료되었습니다.",
            UserMessageKind::AccessDenied => "메모리 접근 거부 (ACE 핸들 권한 박탈)",
            UserMessageKind::InvalidHandle => "프로세스 핸들이 무효화되었습니다.",
            UserMessageKind::Partial => "ACE 메모리 보호 중 (게임 초기화/로딩 중...)",
            UserMessageKind::WorldInitialising => "게임 월드 초기화 중 (잠시 대기...)",
            UserMessageKind::ReadFailed => "메모리 읽기 실패",
            UserMessageKind::DriverUnavailable => "드라이버를 사용할 수 없습니다.",
        }
    }

    /// The text the error displays as.
    pub fn to_display_string(&self) -> (r: String)
        ensures
            r@ == display_text(*self),
    {
        match self {
            NativeError::ProcessTerminated => String::from_str("proc_terminated"),
            NativeError::PointerChainError { message } => message.clone(),
            NativeError::ValueReadError { message } => message.clone(),
            NativeError::DriverUnavailable => String::from_str("driver_unavailable"),
        }
    }
}

} // verus!
