use wasmos::guest_abi::{syscall, OsErrorCode, ABI_VERSION, OPEN_APPEND, OPEN_READ};
use wasmos::guest_support::{describe_status, require_ok};
use wasmos::os_error::OsErrorCode as Host;

#[test]
fn status_numbers_decode_to_their_codes() {
    assert_eq!(OsErrorCode::from_i32(0), Some(OsErrorCode::Success));
    assert_eq!(OsErrorCode::from_i32(6), Some(OsErrorCode::NotFound));
    assert_eq!(OsErrorCode::from_i32(13), Some(OsErrorCode::Conflict));
    assert_eq!(OsErrorCode::from_i32(255), Some(OsErrorCode::Internal));
    assert_eq!(OsErrorCode::from_i32(14), None);
    assert_eq!(OsErrorCode::from_i32(-1), None);
}

#[test]
fn host_codes_decode_on_the_guest_side() {
    assert_eq!(OsErrorCode::from_i32(Host::BadHandle.as_i32()), Some(OsErrorCode::BadHandle));
    assert_eq!(OsErrorCode::from_i32(Host::Internal.as_i32()), Some(OsErrorCode::Internal));
}

#[test]
fn statuses_are_described_by_name() {
    assert_eq!(describe_status(0), "errno 0 (Ok)");
    assert_eq!(describe_status(9), "errno 9 (PermissionDenied)");
    assert_eq!(describe_status(42), "errno 42 (UnknownStatus)");
    assert_eq!(describe_status(-3), "errno -3 (UnknownStatus)");
}

#[test]
fn a_successful_status_passes_the_check() {
    require_ok(0, "vfs_open");
}

#[test]
fn abi_constants_match_the_host() {
    assert_eq!(ABI_VERSION, "wasmos.v1");
    assert_eq!(syscall::VFS_OPEN, "vfs_open");
    assert_eq!(syscall::GUI_POLL_EVENTS, "gui_poll_events");
    assert_eq!(OPEN_READ, wasmos::vfs::OPEN_READ);
    assert_eq!(OPEN_APPEND, wasmos::vfs::OPEN_APPEND);
}
