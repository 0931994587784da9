use wasmos::vfs::{
    is_direct_child, normalize, NodeKind, SeekWhence, TaskVfsPolicy, VfsError, VirtualFileSystem,
    OPEN_APPEND, OPEN_CREATE, OPEN_READ, OPEN_TRUNCATE, OPEN_WRITE,
};

#[test]
fn vfs_policy_denies_write_when_disabled() {
    let mut vfs = VirtualFileSystem::new();
    let task_id = 7;
    vfs.set_task_policy(
        task_id,
        TaskVfsPolicy {
            allow_read: true,
            allow_write: false,
            allow_create: false,
            allow_delete: false,
            allowed_prefixes: vec!["/sandbox".to_string()],
        },
    );
    vfs.create_dir("/sandbox").expect("sandbox should exist");

    let err = vfs
        .open_for_task(task_id, "/sandbox/file.txt", OPEN_WRITE | OPEN_CREATE)
        .expect_err("write+create should be rejected");
    assert!(
        matches!(err, VfsError::PermissionDenied(_)),
        "expected permission denied, got {err:?}"
    );
    assert!(matches!(vfs.read_file("/sandbox/file.txt"), Err(VfsError::NotFound(_))));
    assert!(vfs.handles_for_task(task_id).is_empty());
}

#[test]
fn vfs_handle_roundtrip_and_fd_isolation() {
    let mut vfs = VirtualFileSystem::new();
    let task_a = 11;
    let task_b = 12;
    let fd = vfs
        .open_for_task(task_a, "/notes.txt", OPEN_READ | OPEN_WRITE | OPEN_CREATE)
        .expect("task A should create file");
    vfs.write_for_task(task_a, fd, b"hello")
        .expect("task A write should succeed");

    let err = vfs
        .read_for_task(task_b, fd, 5)
        .expect_err("task B should not use task A's fd");
    assert!(
        matches!(err, VfsError::PermissionDenied(_)),
        "expected permission denied for foreign fd, got {err:?}"
    );

    vfs.seek_for_task(task_a, fd, 0, SeekWhence::Start)
        .expect("seek should succeed");
    let data = vfs
        .read_for_task(task_a, fd, 5)
        .expect("task A read should succeed");
    assert_eq!(data, b"hello");
}

#[test]
fn snapshot_roundtrip_restores_nodes() {
    let mut vfs = VirtualFileSystem::new();
    vfs.create_dir("/persist").expect("directory should be created");
    vfs.write_file("/persist/hello.txt", b"world".to_vec())
        .expect("file should be created");
    let snapshot = vfs.snapshot_nodes();

    let mut restored = VirtualFileSystem::new();
    restored.restore_nodes(snapshot);
    let bytes = restored
        .read_file("/persist/hello.txt")
        .expect("restored file should exist");
    assert_eq!(bytes, b"world");
}

#[test]
fn read_after_write_and_delete() {
    let mut vfs = VirtualFileSystem::new();
    vfs.write_file("docs/a.txt", b"one".to_vec()).unwrap();
    assert_eq!(vfs.read_file("/docs/a.txt").unwrap(), b"one");
    vfs.write_file("/docs/a.txt", b"two".to_vec()).unwrap();
    assert_eq!(vfs.read_file("docs/a.txt").unwrap(), b"two");
    vfs.delete("/docs/a.txt").unwrap();
    assert!(matches!(vfs.read_file("/docs/a.txt"), Err(VfsError::NotFound(p)) if p == "/docs/a.txt"));
    assert!(matches!(vfs.delete("/docs/a.txt"), Err(VfsError::NotFound(_))));
}

#[test]
fn directories_are_not_files() {
    let mut vfs = VirtualFileSystem::new();
    vfs.create_dir("/etc").unwrap();
    assert!(matches!(vfs.create_dir("/etc"), Err(VfsError::AlreadyExists(p)) if p == "/etc"));
    assert!(matches!(vfs.read_file("/etc"), Err(VfsError::NotAFile(_))));
    assert!(matches!(
        vfs.open_for_task(1, "/etc", OPEN_READ),
        Err(VfsError::NotAFile(_))
    ));
}

#[test]
fn listing_shows_direct_children_only() {
    let mut vfs = VirtualFileSystem::new();
    vfs.create_dir("/a").unwrap();
    vfs.write_file("/a/x.txt", b"12".to_vec()).unwrap();
    vfs.create_dir("/a/b").unwrap();
    vfs.write_file("/a/b/deep.txt", b"zzz".to_vec()).unwrap();
    let entries = vfs.list_dir_for_task(1, "/a").unwrap();
    let names: Vec<&str> = entries.iter().map(|e| e.path.as_str()).collect();
    assert_eq!(names, vec!["/a/b", "/a/x.txt"]);
    assert!(matches!(entries[0].kind, NodeKind::Directory));
    assert_eq!(entries[1].len, 2);
    assert!(matches!(
        vfs.list_dir_for_task(1, "/a/x.txt"),
        Err(VfsError::NotADirectory(_))
    ));
    assert!(matches!(vfs.list_dir_for_task(1, "/none"), Err(VfsError::NotFound(_))));
}

#[test]
fn open_flags_are_checked() {
    let mut vfs = VirtualFileSystem::new();
    assert!(matches!(
        vfs.open_for_task(1, "/f", OPEN_CREATE),
        Err(VfsError::InvalidOpenFlags)
    ));
    assert!(matches!(vfs.open_for_task(1, "/f", OPEN_READ), Err(VfsError::NotFound(_))));
    let fd = vfs.open_for_task(1, "/f", OPEN_WRITE | OPEN_CREATE).unwrap();
    assert_eq!(vfs.write_for_task(1, fd, b"abcdef").unwrap(), 6);
    let fd2 = vfs.open_for_task(1, "/f", OPEN_APPEND).unwrap();
    assert_eq!(vfs.write_for_task(1, fd2, b"gh").unwrap(), 2);
    assert_eq!(vfs.read_file("/f").unwrap(), b"abcdefgh");
    let fd3 = vfs.open_for_task(1, "/f", OPEN_WRITE | OPEN_TRUNCATE).unwrap();
    assert_eq!(vfs.read_file("/f").unwrap(), b"");
    assert!(fd < fd2 && fd2 < fd3);
}

#[test]
fn descriptors_move_with_reads_and_seeks() {
    let mut vfs = VirtualFileSystem::new();
    vfs.write_file("/data.bin", b"0123456789".to_vec()).unwrap();
    let fd = vfs.open_for_task(3, "/data.bin", OPEN_READ).unwrap();
    assert_eq!(vfs.read_for_task(3, fd, 4).unwrap(), b"0123");
    assert_eq!(vfs.read_for_task(3, fd, 4).unwrap(), b"4567");
    assert_eq!(vfs.seek_for_task(3, fd, -3, SeekWhence::End).unwrap(), 7);
    assert_eq!(vfs.read_for_task(3, fd, 10).unwrap(), b"789");
    assert!(matches!(
        vfs.seek_for_task(3, fd, -1, SeekWhence::Start),
        Err(VfsError::InvalidSeek)
    ));
    assert!(matches!(vfs.write_for_task(3, fd, b"x"), Err(VfsError::PermissionDenied(_))));
    vfs.close_for_task(3, fd).unwrap();
    assert!(matches!(vfs.close_for_task(3, fd), Err(VfsError::InvalidFd(x)) if x == fd));
}

#[test]
fn handles_are_listed_per_task() {
    let mut vfs = VirtualFileSystem::new();
    let a = vfs.open_for_task(1, "/one", OPEN_WRITE | OPEN_CREATE).unwrap();
    let _b = vfs.open_for_task(2, "/two", OPEN_WRITE | OPEN_CREATE).unwrap();
    let listed = vfs.handles_for_task(1);
    assert_eq!(listed.len(), 1);
    assert_eq!(listed[0].fd, a);
    assert_eq!(listed[0].path, "/one");
    assert!(listed[0].writable && !listed[0].readable);
}

#[test]
fn delete_is_refused_by_default_policy() {
    let mut vfs = VirtualFileSystem::new();
    vfs.write_file("/x", b"1".to_vec()).unwrap();
    assert!(matches!(vfs.delete_for_task(5, "/x"), Err(VfsError::PermissionDenied(_))));
    assert!(vfs.create_dir_for_task(5, "/d").is_ok());
}

#[test]
fn paths_are_normalized() {
    assert_eq!(normalize("  /a/b ".to_string()), "/a/b");
    assert_eq!(normalize("a".to_string()), "/a");
    assert_eq!(normalize("/".to_string()), "/");
    assert_eq!(normalize("///x".to_string()), "/x");
    assert!(is_direct_child("/", "/a"));
    assert!(is_direct_child("/a/", "/a/b"));
    assert!(!is_direct_child("/a", "/a/b/c"));
    assert!(!is_direct_child("/a", "/a"));
}

#[test]
fn host_paths_are_recorded_on_nodes() {
    let mut vfs = VirtualFileSystem::new();
    vfs.create_dir("/mnt").unwrap();
    vfs.map_host_path(" mnt", "/srv/share".to_string()).unwrap();
    let nodes = vfs.snapshot_nodes();
    let (_, node) = nodes.iter().find(|(key, _)| key == "/mnt").unwrap();
    assert_eq!(node.metadata.mapped_host_path.as_deref(), Some("/srv/share"));
    assert!(matches!(
        vfs.map_host_path("/nowhere", "/x".to_string()),
        Err(VfsError::NotFound(p)) if p == "/nowhere"
    ));
}

fn policy(read: bool, write: bool, create: bool) -> TaskVfsPolicy {
    TaskVfsPolicy {
        allow_read: read,
        allow_write: write,
        allow_create: create,
        allow_delete: false,
        allowed_prefixes: vec!["/".to_string()],
    }
}

#[test]
fn create_permission_does_not_admit_writes() {
    let mut vfs = VirtualFileSystem::new();
    vfs.write_file("/f", b"abc".to_vec()).unwrap();
    vfs.set_task_policy(5, policy(true, false, true));
    let err = vfs.open_for_task(5, "/f", OPEN_WRITE).unwrap_err();
    assert!(matches!(err, VfsError::PermissionDenied(ref m) if m == "task 5 cannot write"));
    assert_eq!(vfs.read_file("/f").unwrap(), b"abc".to_vec());
    assert!(vfs.handles_for_task(5).is_empty());
}

#[test]
fn truncation_needs_write_permission() {
    let mut vfs = VirtualFileSystem::new();
    vfs.write_file("/f", b"abc".to_vec()).unwrap();
    vfs.set_task_policy(5, policy(true, false, false));
    let err = vfs.open_for_task(5, "/f", OPEN_READ | OPEN_TRUNCATE).unwrap_err();
    assert!(matches!(err, VfsError::PermissionDenied(_)));
    assert_eq!(vfs.read_file("/f").unwrap(), b"abc".to_vec());
}

#[test]
fn creating_a_file_needs_create_permission() {
    let mut vfs = VirtualFileSystem::new();
    vfs.set_task_policy(6, policy(true, true, false));
    let err = vfs.open_for_task(6, "/new", OPEN_WRITE | OPEN_CREATE).unwrap_err();
    assert!(matches!(err, VfsError::PermissionDenied(ref m) if m == "task 6 cannot create"));
    vfs.write_file("/old", b"x".to_vec()).unwrap();
    let err = vfs.open_for_task(6, "/old", OPEN_WRITE | OPEN_CREATE).unwrap_err();
    assert!(matches!(err, VfsError::PermissionDenied(ref m) if m == "task 6 cannot create"));
    assert!(vfs.open_for_task(6, "/old", OPEN_WRITE).is_ok());
}

#[test]
fn listings_give_direct_children_in_path_order() {
    let mut vfs = VirtualFileSystem::new();
    vfs.create_dir("/a").unwrap();
    vfs.create_dir("/a/b").unwrap();
    vfs.write_file("/a/b/c", b"z".to_vec()).unwrap();
    vfs.write_file("/a/x", b"12".to_vec()).unwrap();
    let v = vfs.list_dir_for_task(1, "/a").unwrap();
    let seen: Vec<(String, NodeKind, usize)> = v.into_iter().map(|e| (e.path, e.kind, e.len)).collect();
    assert_eq!(
        seen,
        vec![("/a/b".to_string(), NodeKind::Directory, 0), ("/a/x".to_string(), NodeKind::File, 2)]
    );
    let fd = vfs.open_for_task(1, "/a/x", OPEN_READ).unwrap();
    assert_eq!(fd, 3);
    assert_eq!(vfs.open_for_task(1, "/a/x", OPEN_READ).unwrap(), 4);
    assert_eq!(vfs.handles_for_task(1).len(), 2);
    assert!(vfs.handles_for_task(2).is_empty());
}
