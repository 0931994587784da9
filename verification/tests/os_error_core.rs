use wasmos::os_error::{OsError, OsErrorCode};
use wasmos::vfs::VfsError;

#[test]
fn codes_travel_as_their_numbers() {
    assert_eq!(OsErrorCode::Success.as_i32(), 0);
    assert_eq!(OsErrorCode::InvalidUtf8.as_i32(), 2);
    assert_eq!(OsErrorCode::Conflict.as_i32(), 13);
    assert_eq!(OsErrorCode::Internal.as_i32(), 255);
}

#[test]
fn constructors_set_their_codes() {
    let e = OsError::invalid_argument("bad".to_string());
    assert_eq!((e.code, e.message.as_str()), (OsErrorCode::InvalidArgument, "bad"));
    assert_eq!(OsError::internal("x".to_string()).code, OsErrorCode::Internal);
    assert_eq!(OsError::timeout("x".to_string()).code, OsErrorCode::Timeout);
    assert_eq!(OsError::new(OsErrorCode::Conflict, "c".to_string()).code, OsErrorCode::Conflict);
}

#[test]
fn filesystem_errors_map_to_codes_and_messages() {
    let e = OsError::from_vfs_error(VfsError::NotFound("/x".to_string()));
    assert_eq!((e.code, e.message.as_str()), (OsErrorCode::NotFound, "/x"));
    let e = OsError::from_vfs_error(VfsError::NotAFile("/d".to_string()));
    assert_eq!((e.code, e.message.as_str()), (OsErrorCode::InvalidArgument, "not a file: /d"));
    let e = OsError::from_vfs_error(VfsError::InvalidFd(42));
    assert_eq!((e.code, e.message.as_str()), (OsErrorCode::BadHandle, "invalid fd 42"));
    let e = OsError::from_vfs_error(VfsError::InvalidSeek);
    assert_eq!((e.code, e.message.as_str()), (OsErrorCode::InvalidArgument, "invalid seek"));
    let e = OsError::from_vfs_error(VfsError::Snapshot("disk".to_string()));
    assert_eq!(e.code, OsErrorCode::Internal);
}

#[test]
fn host_errors_are_classified_by_their_text() {
    assert_eq!(OsError::from_message("request timed out".to_string()).code, OsErrorCode::Timeout);
    assert_eq!(
        OsError::from_message("network disabled for task 3".to_string()).code,
        OsErrorCode::PermissionDenied
    );
    assert_eq!(OsError::from_message("not implemented".to_string()).code, OsErrorCode::NotSupported);
    assert_eq!(
        OsError::from_message("tcp connect failed: refused".to_string()).code,
        OsErrorCode::NetworkUnavailable
    );
    assert_eq!(OsError::from_message("boom".to_string()).code, OsErrorCode::Internal);
    let e = OsError::from_error(&anyhow::Error::msg("host example.com not permitted"));
    assert_eq!(e.code, OsErrorCode::PermissionDenied);
    assert_eq!(e.message, "host example.com not permitted");
}
