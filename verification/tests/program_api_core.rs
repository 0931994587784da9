use wasmos::os_error::{OsError, OsErrorCode};
use wasmos::program_api::{
    clamp_guest_len, clamp_guest_offset, decode_guest_string, ensure_memory_range, finish_reply,
    plan_reply, status_from_result, AbiError, GuestApi, SystemCallRegistry, VfsOpenRequest,
    VfsPathRequest, VfsReadRequest, VfsSeekRequest, VfsWriteRequest, MAX_GUEST_BUFFER,
};
use wasmos::runtime::{RuntimeBlockReason, TaskRuntimeControl};
use wasmos::vfs::{SeekWhence, VirtualFileSystem, OPEN_CREATE, OPEN_READ, OPEN_WRITE};

#[test]
fn guest_pointers_and_lengths_are_checked() {
    assert_eq!(clamp_guest_offset(12).unwrap(), 12);
    match clamp_guest_offset(-1) {
        Err(AbiError::Structured(e)) => {
            assert_eq!(e.code, OsErrorCode::InvalidArgument);
            assert_eq!(e.message, "pointer must be non-negative");
        }
        other => panic!("unexpected {other:?}"),
    }
    assert_eq!(clamp_guest_len(65536).unwrap(), MAX_GUEST_BUFFER);
    match clamp_guest_len(65537) {
        Err(AbiError::Structured(e)) => assert_eq!(e.message, "length exceeds syscall ABI limit"),
        other => panic!("unexpected {other:?}"),
    }
    match clamp_guest_len(-5) {
        Err(AbiError::Structured(e)) => assert_eq!(e.message, "length must be non-negative"),
        other => panic!("unexpected {other:?}"),
    }
}

#[test]
fn memory_ranges_must_fit() {
    assert!(ensure_memory_range(10, 6, 16).is_ok());
    assert!(matches!(
        ensure_memory_range(10, 7, 16),
        Err(AbiError::MemoryOutOfBounds { ptr: 10, len: 7 })
    ));
    assert!(matches!(
        ensure_memory_range(usize::MAX, 2, 16),
        Err(AbiError::MemoryOutOfBounds { .. })
    ));
}

#[test]
fn replies_are_cut_to_the_buffer() {
    assert_eq!(plan_reply(100, 40).unwrap(), (40, 40));
    assert_eq!(plan_reply(10, 40).unwrap(), (10, 40));
    assert!(plan_reply(10, -1).is_err());
    assert!(matches!(
        finish_reply(100, 40, 40),
        Err(AbiError::BufferTooSmall { required: 100, available: 40 })
    ));
    assert!(finish_reply(10, 10, 40).is_ok());
}

#[test]
fn statuses_follow_the_error() {
    assert_eq!(status_from_result(Ok(())), 0);
    assert_eq!(
        status_from_result(Err(AbiError::BufferTooSmall { required: 2, available: 1 })),
        4
    );
    assert_eq!(
        status_from_result(Err(AbiError::Structured(OsError::new(
            OsErrorCode::NotFound,
            "x".to_string()
        )))),
        6
    );
    assert_eq!(status_from_result(Err(AbiError::MemoryOutOfBounds { ptr: 0, len: 1 })), 3);
}

#[test]
fn guest_strings_must_be_utf8() {
    assert_eq!(decode_guest_string("héllo".as_bytes()).unwrap(), "héllo");
    let bad = decode_guest_string(&[0x66, 0xff, 0x6f]);
    assert!(matches!(bad, Err(AbiError::InvalidUtf8(_))));
    assert_eq!(bad.unwrap_err().status().as_i32(), 2);
}

#[test]
fn sleep_syscall_refuses_negative_durations() {
    let mut control = TaskRuntimeControl::default();
    assert_eq!(SystemCallRegistry::sleep_ms(&mut control, -1), 1);
    assert!(control.block_reason.is_none());
    assert_eq!(SystemCallRegistry::sleep_ms(&mut control, 5), 0);
    assert!(matches!(control.block_reason, Some(RuntimeBlockReason::Sleep { duration_ms: 5 })));
    assert_eq!(SystemCallRegistry::wait_event(&mut control, "keys".to_string()), 0);
    assert!(matches!(control.block_reason, Some(RuntimeBlockReason::Io { .. })));
}

#[test]
fn file_syscalls_go_through_the_task_policy() {
    let mut vfs = VirtualFileSystem::new();
    assert_eq!(SystemCallRegistry::vfs_write(&mut vfs, "/a.txt", b"abc".to_vec()), 0);
    assert_eq!(SystemCallRegistry::vfs_read(&vfs, "/a.txt").unwrap(), b"abc");
    match SystemCallRegistry::vfs_read(&vfs, "/missing") {
        Err(AbiError::Structured(e)) => assert_eq!(e.code, OsErrorCode::NotFound),
        other => panic!("unexpected {other:?}"),
    }
    let fd = SystemCallRegistry::vfs_open(
        &mut vfs,
        1,
        &VfsOpenRequest { path: "/b.txt".to_string(), flags: OPEN_READ | OPEN_WRITE | OPEN_CREATE },
    )
    .unwrap();
    let n = SystemCallRegistry::vfs_fd_write(
        &mut vfs,
        1,
        &VfsWriteRequest { fd, data: b"xyz".to_vec() },
    )
    .unwrap();
    assert_eq!(n, 3);
    let pos = SystemCallRegistry::vfs_seek(
        &mut vfs,
        1,
        &VfsSeekRequest { fd, offset: 1, whence: SeekWhence::Start },
    )
    .unwrap();
    assert_eq!(pos, 1);
    let data = SystemCallRegistry::vfs_fd_read(&mut vfs, 1, &VfsReadRequest { fd, len: 5 }).unwrap();
    assert_eq!(data, b"yz");
    match SystemCallRegistry::vfs_fd_read(&mut vfs, 2, &VfsReadRequest { fd, len: 5 }) {
        Err(AbiError::Structured(e)) => assert_eq!(e.code, OsErrorCode::PermissionDenied),
        other => panic!("unexpected {other:?}"),
    }
    assert_eq!(SystemCallRegistry::vfs_close(&mut vfs, 2, fd), 9);
    assert_eq!(SystemCallRegistry::vfs_close(&mut vfs, 1, fd), 0);
    assert_eq!(SystemCallRegistry::vfs_close(&mut vfs, 1, fd), 12);
    let dir = VfsPathRequest { path: "/d".to_string() };
    assert_eq!(SystemCallRegistry::vfs_mkdir(&mut vfs, 1, &dir), 0);
    assert_eq!(SystemCallRegistry::vfs_mkdir(&mut vfs, 1, &dir), 7);
    let listing = SystemCallRegistry::vfs_list_dir(&vfs, 1, &VfsPathRequest { path: "/".to_string() })
        .unwrap();
    assert_eq!(listing.len(), 3);
    assert_eq!(SystemCallRegistry::vfs_delete(&mut vfs, 1, &dir), 9);
}

#[test]
fn guest_api_stubs_answer_without_a_runtime() {
    assert!(GuestApi::file_read("/x").unwrap().is_empty());
    assert!(GuestApi::file_write("/x", b"1").is_ok());
    assert_eq!(GuestApi::create_window(wasmos::gui::WindowDescriptor {
        title: "t".to_string(),
        width: 1,
        height: 1
    })
    .unwrap(), 0);
    assert!(GuestApi::poll_events(0).unwrap().is_empty());
    let response = GuestApi::http_request(wasmos::network::HttpRequest {
        method: "GET".to_string(),
        url: "http://x".to_string(),
        headers: wasmos::ordered::TextMap::new(),
        body: vec![],
    })
    .unwrap();
    assert_eq!(response.status, 501);
    GuestApi::yield_now();
}

#[test]
fn gui_open_window_registers_the_window_for_the_task() {
    let mut gui = wasmos::gui::GuiSubsystem::new(wasmos::host::HostBridge::detect(false));
    let id = SystemCallRegistry::gui_open_window(
        &mut gui,
        3,
        wasmos::gui::WindowDescriptor { title: "clock".to_string(), width: 320, height: 200 },
    );
    assert_eq!(id, (3u64 << 32) | 320);
    let windows = gui.list_windows();
    assert_eq!(windows.len(), 1);
    assert_eq!(windows[0].id, id);
    assert_eq!(windows[0].owner_task_id, 3);
    assert_eq!(windows[0].descriptor.title, "clock");
    assert_eq!((windows[0].descriptor.width, windows[0].descriptor.height), (320, 200));
}

#[test]
fn finishing_a_quantum_books_the_fuel() {
    let mut control = TaskRuntimeControl::default();
    control.reset_for_quantum(1);
    let limit = control.fuel_limit;
    let total = control.fuel_consumed_total;
    control.finish_resume(limit - 7, wasmos::runtime::GuestCallOutcome::Returned(0));
    assert_eq!(control.fuel_remaining, limit - 7);
    assert_eq!(control.fuel_consumed_last_resume, 7);
    assert_eq!(control.fuel_consumed_total, total + 7);
    control.finish_resume(u64::MAX, wasmos::runtime::GuestCallOutcome::Returned(0));
    assert_eq!(control.fuel_remaining, limit);
    assert_eq!(control.fuel_consumed_last_resume, 0);
}
