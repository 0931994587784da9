use crate::text::{chars_of, contains_text, decimal, push_decimal, push_text, string_from, text_contains};
use crate::vfs::{Fault, VfsError};
use vstd::prelude::*;

verus! {

/// Numeric, errno-style status codes shared by every subsystem and by the
/// guest ABI.
#[derive(Debug, Clone, Copy, PartialEq, Eq, Structural)]
pub enum OsErrorCode {
    Success,
    InvalidArgument,
    InvalidUtf8,
    MemoryOutOfBounds,
    BufferTooSmall,
    Serialization,
    NotFound,
    AlreadyExists,
    NotSupported,
    PermissionDenied,
    Timeout,
    NetworkUnavailable,
    BadHandle,
    Conflict,
    Internal,
}

/// The number a code stands for on the guest ABI.
pub open spec fn code_number(code: OsErrorCode) -> i32 {
    match code {
        OsErrorCode::Success => 0,
        OsErrorCode::InvalidArgument => 1,
        OsErrorCode::InvalidUtf8 => 2,
        OsErrorCode::MemoryOutOfBounds => 3,
        OsErrorCode::BufferTooSmall => 4,
        OsErrorCode::Serialization => 5,
        OsErrorCode::NotFound => 6,
        OsErrorCode::AlreadyExists => 7,
        OsErrorCode::NotSupported => 8,
        OsErrorCode::PermissionDenied => 9,
        OsErrorCode::Timeout => 10,
        OsErrorCode::NetworkUnavailable => 11,
        OsErrorCode::BadHandle => 12,
        OsErrorCode::Conflict => 13,
        OsErrorCode::Internal => 255,
    }
}

impl OsErrorCode {
    pub fn as_i32(self) -> (n: i32)
        ensures
            n == code_number(self),
    {
        match self {
            OsErrorCode::Success => 0,
            OsErrorCode::InvalidArgument => 1,
            OsErrorCode::InvalidUtf8 => 2,
            OsErrorCode::MemoryOutOfBounds => 3,
            OsErrorCode::BufferTooSmall => 4,
            OsErrorCode::Serialization => 5,
            OsErrorCode::NotFound => 6,
            OsErrorCode::AlreadyExists => 7,
            OsErrorCode::NotSupported => 8,
            OsErrorCode::PermissionDenied => 9,
            OsErrorCode::Timeout => 10,
            OsErrorCode::NetworkUnavailable => 11,
            OsErrorCode::BadHandle => 12,
            OsErrorCode::Conflict => 13,
            OsErrorCode::Internal => 255,
        }
    }
}

/// An error as the guest ABI reports it: a status code and a message.
#[derive(Debug)]
pub struct OsError {
    pub code: OsErrorCode,
    pub message: String,
}

impl View for OsError {
    type V = (OsErrorCode, Seq<char>);

    open spec fn view(&self) -> (OsErrorCode, Seq<char>) {
        (self.code, self.message@)
    }
}

/// The status code that the text of a host error stands for.
pub open spec fn classify_message(m: Seq<char>) -> OsErrorCode {
    if contains_text(m, "timed out"@) || contains_text(m, "deadline has elapsed"@) {
        OsErrorCode::Timeout
    } else if contains_text(m, "disabled for task"@) || contains_text(m, "not permitted"@) {
        OsErrorCode::PermissionDenied
    } else if contains_text(m, "not implemented"@) {
        OsErrorCode::NotSupported
    } else if contains_text(m, "dns"@) || contains_text(m, "HTTP request failed"@) || contains_text(
        m,
        "HTTP body read failed"@,
    ) || contains_text(m, "tcp connect failed"@) || contains_text(m, "websocket connect failed"@)
        || contains_text(m, "certificate"@) || contains_text(m, "tls"@) || contains_text(
        m,
        "connection"@,
    ) {
        OsErrorCode::NetworkUnavailable
    } else {
        OsErrorCode::Internal
    }
}

/// The guest-visible error that a filesystem error becomes.
pub open spec fn from_fault(f: Fault) -> (OsErrorCode, Seq<char>) {
    match f {
        Fault::NotFound(p) => (OsErrorCode::NotFound, p),
        Fault::AlreadyExists(p) => (OsErrorCode::AlreadyExists, p),
        Fault::NotAFile(p) => (OsErrorCode::InvalidArgument, "not a file: "@ + p),
        Fault::NotADirectory(p) => (OsErrorCode::InvalidArgument, "not a directory: "@ + p),
        Fault::PermissionDenied(m) => (OsErrorCode::PermissionDenied, m),
        Fault::InvalidFd(fd) => (OsErrorCode::BadHandle, "invalid fd "@ + decimal(fd as nat)),
        Fault::InvalidOpenFlags => (OsErrorCode::InvalidArgument, "invalid open flags"@),
        Fault::InvalidSeek => (OsErrorCode::InvalidArgument, "invalid seek"@),
        Fault::Snapshot(m) => (OsErrorCode::Internal, m),
    }
}

/// A host error displayed in the plain form (`to_string`, that is `{}`).
pub uninterp spec fn host_error_text(error: anyhow::Error) -> Seq<char>;

/// The text of a host error (`anyhow::Error` displayed).
#[verifier::external_body]
fn error_text(error: &anyhow::Error) -> (s: String)
    ensures
        s@ == host_error_text(*error),
{
    error.to_string()
}

fn prefixed(prefix: &str, rest: &str) -> (s: String)
    ensures
        s@ == prefix@ + rest@,
{
    crate::text::concat2(prefix, rest)
}

impl OsError {
    pub fn new(code: OsErrorCode, message: String) -> (e: Self)
        ensures
            e@ == (code, message@),
    {
        OsError { code, message }
    }

    pub fn invalid_argument(message: String) -> (e: Self)
        ensures
            e@ == (OsErrorCode::InvalidArgument, message@),
    {
        Self::new(OsErrorCode::InvalidArgument, message)
    }

    pub fn internal(message: String) -> (e: Self)
        ensures
            e@ == (OsErrorCode::Internal, message@),
    {
        Self::new(OsErrorCode::Internal, message)
    }

    pub fn timeout(message: String) -> (e: Self)
        ensures
            e@ == (OsErrorCode::Timeout, message@),
    {
        Self::new(OsErrorCode::Timeout, message)
    }

    /// The error that a filesystem error becomes at the guest boundary.
    pub fn from_vfs_error(value: VfsError) -> (e: Self)
        ensures
            e@ == from_fault(value@),
    {
        match value {
            VfsError::NotFound(path) => Self::new(OsErrorCode::NotFound, path),
            VfsError::AlreadyExists(path) => Self::new(OsErrorCode::AlreadyExists, path),
            VfsError::NotAFile(path) => Self::new(
                OsErrorCode::InvalidArgument,
                prefixed("not a file: ", path.as_str()),
            ),
            VfsError::NotADirectory(path) => Self::new(
                OsErrorCode::InvalidArgument,
                prefixed("not a directory: ", path.as_str()),
            ),
            VfsError::PermissionDenied(message) => Self::new(OsErrorCode::PermissionDenied, message),
            VfsError::InvalidFd(fd) => {
                let mut out: Vec<char> = Vec::new();
                push_text(&mut out, "invalid fd ");
                push_decimal(&mut out, fd);
                proof {
                    assert(out@ =~= "invalid fd "@ + decimal(fd as nat));
                }
                Self::new(OsErrorCode::BadHandle, string_from(out.as_slice()))
            },
            VfsError::InvalidOpenFlags => Self::new(
                OsErrorCode::InvalidArgument,
                "invalid open flags".to_string(),
            ),
            VfsError::InvalidSeek => Self::new(OsErrorCode::InvalidArgument, "invalid seek".to_string()),
            VfsError::Snapshot(message) => Self::new(OsErrorCode::Internal, message),
        }
    }

    /// The error that the text of a host error becomes: the text is kept and
    /// the code is read from it.
    pub fn from_message(message: String) -> (e: Self)
        ensures
            e@ == (classify_message(message@), message@),
    {
        let m = message.as_str();
        if text_contains(m, "timed out") || text_contains(m, "deadline has elapsed") {
            return Self::timeout(message);
        }
        if text_contains(m, "disabled for task") || text_contains(m, "not permitted") {
            return Self::new(OsErrorCode::PermissionDenied, message);
        }
        if text_contains(m, "not implemented") {
            return Self::new(OsErrorCode::NotSupported, message);
        }
        if text_contains(m, "dns") || text_contains(m, "HTTP request failed") || text_contains(
            m,
            "HTTP body read failed",
        ) || text_contains(m, "tcp connect failed") || text_contains(m, "websocket connect failed")
            || text_contains(m, "certificate") || text_contains(m, "tls") || text_contains(
            m,
            "connection",
        ) {
            return Self::new(OsErrorCode::NetworkUnavailable, message);
        }
        Self::new(OsErrorCode::Internal, message)
    }

    /// The error that a host error becomes: its displayed text, with the code
    /// read from that text.
    pub fn from_error(error: &anyhow::Error) -> (e: Self)
        ensures
            e@ == (classify_message(host_error_text(*error)), host_error_text(*error)),
    {
        Self::from_message(error_text(error))
    }
}

} // verus!
