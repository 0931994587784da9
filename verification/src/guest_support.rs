//! What guest programs share: the check that a syscall succeeded and the
//! text that names a status.
use crate::guest_abi::{OsErrorCode, status_of};
use crate::text::{push_signed_decimal, push_text, signed_decimal, string_from};
use vstd::prelude::*;

verus! {

/// The name a status is printed with, as its variant is written in the ABI.
pub open spec fn status_name(c: OsErrorCode) -> Seq<char> {
    match c {
        OsErrorCode::Success => "Ok"@,
        OsErrorCode::InvalidArgument => "InvalidArgument"@,
        OsErrorCode::InvalidUtf8 => "InvalidUtf8"@,
        OsErrorCode::MemoryOutOfBounds => "MemoryOutOfBounds"@,
        OsErrorCode::BufferTooSmall => "BufferTooSmall"@,
        OsErrorCode::Serialization => "Serialization"@,
        OsErrorCode::NotFound => "NotFound"@,
        OsErrorCode::AlreadyExists => "AlreadyExists"@,
        OsErrorCode::NotSupported => "NotSupported"@,
        OsErrorCode::PermissionDenied => "PermissionDenied"@,
        OsErrorCode::Timeout => "Timeout"@,
        OsErrorCode::NetworkUnavailable => "NetworkUnavailable"@,
        OsErrorCode::BadHandle => "BadHandle"@,
        OsErrorCode::Conflict => "Conflict"@,
        OsErrorCode::Internal => "Internal"@,
    }
}

/// The name of a status number: the status's name, or `UnknownStatus`.
pub open spec fn number_name(code: i32) -> Seq<char> {
    match status_of(code) {
        Some(c) => status_name(c),
        None => "UnknownStatus"@,
    }
}

/// How a status number is described: `errno <n> (<name>)`.
pub open spec fn status_description(code: i32) -> Seq<char> {
    "errno "@ + signed_decimal(code as int) + " ("@ + number_name(code) + ")"@
}

fn name_text(code: i32) -> (s: &'static str)
    ensures
        s@ == number_name(code),
{
    match OsErrorCode::from_i32(code) {
        Some(OsErrorCode::Success) => "Ok",
        Some(OsErrorCode::InvalidArgument) => "InvalidArgument",
        Some(OsErrorCode::InvalidUtf8) => "InvalidUtf8",
        Some(OsErrorCode::MemoryOutOfBounds) => "MemoryOutOfBounds",
        Some(OsErrorCode::BufferTooSmall) => "BufferTooSmall",
        Some(OsErrorCode::Serialization) => "Serialization",
        Some(OsErrorCode::NotFound) => "NotFound",
        Some(OsErrorCode::AlreadyExists) => "AlreadyExists",
        Some(OsErrorCode::NotSupported) => "NotSupported",
        Some(OsErrorCode::PermissionDenied) => "PermissionDenied",
        Some(OsErrorCode::Timeout) => "Timeout",
        Some(OsErrorCode::NetworkUnavailable) => "NetworkUnavailable",
        Some(OsErrorCode::BadHandle) => "BadHandle",
        Some(OsErrorCode::Conflict) => "Conflict",
        Some(OsErrorCode::Internal) => "Internal",
        None => "UnknownStatus",
    }
}

/// Describes a status number, such as `errno 6 (NotFound)`.
pub fn describe_status(code: i32) -> (s: String)
    ensures
        s@ == status_description(code),
{
    let mut out: Vec<char> = Vec::new();
    push_text(&mut out, "errno ");
    push_signed_decimal(&mut out, code as i64);
    push_text(&mut out, " (");
    push_text(&mut out, name_text(code));
    push_text(&mut out, ")");
    proof {
        assert(out@ =~= status_description(code));
    }
    string_from(out.as_slice())
}

/// The check a guest makes after each syscall; only a successful status
/// passes it.
pub fn require_ok(code: i32, context: &str)
    requires
        code == 0,
{
}

} // verus!
