//! What guest programs and the host agree on: the ABI version, the names of
//! the syscalls, the open flags and the status codes a syscall returns.
use crate::os_error;
use vstd::prelude::*;

pub mod syscall;

verus! {

/// The version of the `wasmos` import module.
pub const ABI_VERSION: &'static str = "wasmos.v1";

/// Open for reading.
pub const OPEN_READ: u32 = 1;

/// Open for writing.
pub const OPEN_WRITE: u32 = 2;

/// Create the file when it is missing.
pub const OPEN_CREATE: u32 = 4;

/// Empty the file when it is opened.
pub const OPEN_TRUNCATE: u32 = 8;

/// Write at the end of the file.
pub const OPEN_APPEND: u32 = 16;

/// A syscall status as a guest sees it; `Success` is the status `0`.
#[derive(Debug, Clone, Copy, PartialEq, Eq, Structural)]
pub enum OsErrorCode {
    Success,
    InvalidArgument,
    InvalidUtf8,
    MemoryOutOfBounds,
    BufferTooSmall,
    Serialization,
    NotFound,
    AlreadyExists,
    NotSupported,
    PermissionDenied,
    Timeout,
    NetworkUnavailable,
    BadHandle,
    Conflict,
    Internal,
}

/// The number each status travels as.
pub open spec fn status_number(c: OsErrorCode) -> i32 {
    match c {
        OsErrorCode::Success => 0,
        OsErrorCode::InvalidArgument => 1,
        OsErrorCode::InvalidUtf8 => 2,
        OsErrorCode::MemoryOutOfBounds => 3,
        OsErrorCode::BufferTooSmall => 4,
        OsErrorCode::Serialization => 5,
        OsErrorCode::NotFound => 6,
        OsErrorCode::AlreadyExists => 7,
        OsErrorCode::NotSupported => 8,
        OsErrorCode::PermissionDenied => 9,
        OsErrorCode::Timeout => 10,
        OsErrorCode::NetworkUnavailable => 11,
        OsErrorCode::BadHandle => 12,
        OsErrorCode::Conflict => 13,
        OsErrorCode::Internal => 255,
    }
}

/// The status a number stands for, if any.
pub open spec fn status_of(n: i32) -> Option<OsErrorCode> {
    if n == 0 {
        Some(OsErrorCode::Success)
    } else if n == 1 {
        Some(OsErrorCode::InvalidArgument)
    } else if n == 2 {
        Some(OsErrorCode::InvalidUtf8)
    } else if n == 3 {
        Some(OsErrorCode::MemoryOutOfBounds)
    } else if n == 4 {
        Some(OsErrorCode::BufferTooSmall)
    } else if n == 5 {
        Some(OsErrorCode::Serialization)
    } else if n == 6 {
        Some(OsErrorCode::NotFound)
    } else if n == 7 {
        Some(OsErrorCode::AlreadyExists)
    } else if n == 8 {
        Some(OsErrorCode::NotSupported)
    } else if n == 9 {
        Some(OsErrorCode::PermissionDenied)
    } else if n == 10 {
        Some(OsErrorCode::Timeout)
    } else if n == 11 {
        Some(OsErrorCode::NetworkUnavailable)
    } else if n == 12 {
        Some(OsErrorCode::BadHandle)
    } else if n == 13 {
        Some(OsErrorCode::Conflict)
    } else if n == 255 {
        Some(OsErrorCode::Internal)
    } else {
        None
    }
}

/// The guest status that a host status arrives as.
pub open spec fn from_host(h: os_error::OsErrorCode) -> OsErrorCode {
    match h {
        os_error::OsErrorCode::Success => OsErrorCode::Success,
        os_error::OsErrorCode::InvalidArgument => OsErrorCode::InvalidArgument,
        os_error::OsErrorCode::InvalidUtf8 => OsErrorCode::InvalidUtf8,
        os_error::OsErrorCode::MemoryOutOfBounds => OsErrorCode::MemoryOutOfBounds,
        os_error::OsErrorCode::BufferTooSmall => OsErrorCode::BufferTooSmall,
        os_error::OsErrorCode::Serialization => OsErrorCode::Serialization,
        os_error::OsErrorCode::NotFound => OsErrorCode::NotFound,
        os_error::OsErrorCode::AlreadyExists => OsErrorCode::AlreadyExists,
        os_error::OsErrorCode::NotSupported => OsErrorCode::NotSupported,
        os_error::OsErrorCode::PermissionDenied => OsErrorCode::PermissionDenied,
        os_error::OsErrorCode::Timeout => OsErrorCode::Timeout,
        os_error::OsErrorCode::NetworkUnavailable => OsErrorCode::NetworkUnavailable,
        os_error::OsErrorCode::BadHandle => OsErrorCode::BadHandle,
        os_error::OsErrorCode::Conflict => OsErrorCode::Conflict,
        os_error::OsErrorCode::Internal => OsErrorCode::Internal,
    }
}

impl OsErrorCode {
    /// The status a number stands for; `None` for a number no status has.
    pub fn from_i32(value: i32) -> (r: Option<Self>)
        ensures
            r == status_of(value),
    {
        match value {
            0 => Some(OsErrorCode::Success),
            1 => Some(OsErrorCode::InvalidArgument),
            2 => Some(OsErrorCode::InvalidUtf8),
            3 => Some(OsErrorCode::MemoryOutOfBounds),
            4 => Some(OsErrorCode::BufferTooSmall),
            5 => Some(OsErrorCode::Serialization),
            6 => Some(OsErrorCode::NotFound),
            7 => Some(OsErrorCode::AlreadyExists),
            8 => Some(OsErrorCode::NotSupported),
            9 => Some(OsErrorCode::PermissionDenied),
            10 => Some(OsErrorCode::Timeout),
            11 => Some(OsErrorCode::NetworkUnavailable),
            12 => Some(OsErrorCode::BadHandle),
            13 => Some(OsErrorCode::Conflict),
            255 => Some(OsErrorCode::Internal),
            _ => None,
        }
    }
}

/// Decoding a status number gives back the status it was made from, and a
/// number decodes to a status only when it is that status's number.
pub proof fn law_status_numbers_round_trip(c: OsErrorCode, n: i32)
    ensures
        status_of(status_number(c)) == Some(c),
        status_of(n) == Some(c) <==> status_number(c) == n,
{
}

/// Every status the host reports decodes, on the guest side, to the status of
/// the same name.
pub proof fn law_host_statuses_decode(h: os_error::OsErrorCode)
    ensures
        status_of(os_error::code_number(h)) == Some(from_host(h)),
        status_number(from_host(h)) == os_error::code_number(h),
{
}

} // verus!
