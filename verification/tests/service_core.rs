use wasmos::service::api::{deletion_path, list_apps, listing_path};
use wasmos::service::gui::GuiBroker;
use wasmos::service::net::NetManager;
use wasmos::service::runtime::{EngineSettings, GuestEngine, LaunchError, RuntimeHost};
use wasmos::service::scheduler::{Scheduler, SpawnRequest, TaskState};
use wasmos::service::shell::{err, ok, Shell, HELP_TEXT};
use wasmos::service::vfs::{is_immediate_child, normalize, parent_dir, FsRefusal, VirtualFileSystem};

fn shell() -> Shell {
    let runtime = RuntimeHost::new(VirtualFileSystem::bootstrap(), NetManager::new(), GuiBroker::new())
        .expect("engine should build");
    Shell::new(Scheduler::new(runtime))
}

#[test]
fn denies_path_escape() {
    let mut fs = VirtualFileSystem::bootstrap();
    assert!(fs.write_file("/../../etc/passwd", vec![]).is_err());
}

#[test]
fn app_view_creates_private_data_folder() {
    let mut fs = VirtualFileSystem::bootstrap();
    let view = fs.app_view("notes").unwrap();
    assert_eq!(view.data, "/data/apps/notes");
    assert!(fs
        .read_dir("/data/apps")
        .unwrap()
        .iter()
        .any(|entry| entry.path == "/data/apps/notes"));
}

#[test]
fn writes_outside_the_roots_are_refused() {
    let mut fs = VirtualFileSystem::bootstrap();
    assert_eq!(fs.write_file("/etc/passwd", vec![]), Err(FsRefusal::OutsideRoots));
    assert_eq!(fs.write_file("/data/../x", vec![]), Err(FsRefusal::Traversal));
    assert_eq!(FsRefusal::OutsideRoots.message(), "writes are limited to /data, /apps, or /system");
    assert_eq!(fs.delete("/data/none"), Err(FsRefusal::NotFound));
}

#[test]
fn written_files_are_listed_after_directories() {
    let mut fs = VirtualFileSystem::bootstrap();
    fs.write_file("/data/docs/a.txt", b"abc".to_vec()).unwrap();
    let entries = fs.read_dir("/data/docs").unwrap();
    assert_eq!(entries.len(), 1);
    assert_eq!(entries[0].path, "/data/docs/a.txt");
    assert_eq!(entries[0].kind, "file");
    assert_eq!(entries[0].size, 3);
    let root = fs.read_dir("/data").unwrap();
    assert_eq!(root[0].path, "/data/docs");
    assert_eq!(root[0].kind, "dir");
    fs.delete("/data/docs/a.txt").unwrap();
    assert!(fs.read_dir("/data/docs").unwrap().is_empty());
    fs.delete("/data/docs").unwrap();
    assert!(fs.read_dir("/data").unwrap().is_empty());
}

#[test]
fn path_helpers() {
    assert_eq!(normalize("data//"), "/data");
    assert_eq!(normalize("/"), "/");
    assert_eq!(normalize(""), "/");
    assert_eq!(parent_dir("/data/apps/notes"), "/data/apps");
    assert_eq!(parent_dir("/data"), "/");
    assert_eq!(parent_dir("data"), "/");
    assert!(is_immediate_child("/", "/apps"));
    assert!(is_immediate_child("/data", "/data/apps"));
    assert!(!is_immediate_child("/data", "/data/apps/notes"));
    assert!(!is_immediate_child("/data", "/data"));
    assert!(!is_immediate_child("/data", "/database"));
}

#[test]
fn shell_help_ls_and_unknown() {
    let mut sh = shell();
    let r = sh.execute("help", 1);
    assert_eq!(r.stdout, HELP_TEXT);
    assert_eq!(r.status, 0);
    let r = sh.execute("ls /system", 1);
    assert_eq!(r.stdout, "/system/apps");
    let r = sh.execute("ls /", 1);
    assert_eq!(r.status, 1);
    assert_eq!(r.stderr, "writes are limited to /data, /apps, or /system");
    let r = sh.execute("reboot now", 1);
    assert_eq!(r.stderr, "unknown command");
    assert_eq!(r.command, "reboot now");
    let r = sh.execute("   ", 1);
    assert_eq!((r.status, r.stdout.as_str()), (0, ""));
}

#[test]
fn shell_spawn_reports_the_task_id() {
    let mut sh = shell();
    let r = sh.execute("spawn notes notes.wasm --fast", 0x0123456789abcdef0011223344556677);
    assert_eq!(r.status, 0);
    assert_eq!(r.stdout, "spawned 01234567-89ab-cdef-0011-223344556677");
    let tasks = sh.scheduler().snapshot();
    assert_eq!(tasks.len(), 1);
    assert!(matches!(tasks[0].state, TaskState::Running));
    assert_eq!(tasks[0].argv, vec!["--fast".to_string()]);
    assert!(sh
        .scheduler()
        .vfs()
        .read_dir("/data/apps")
        .unwrap()
        .iter()
        .any(|e| e.path == "/data/apps/notes"));
    let r = sh.execute("spawn notes notes.exe", 5);
    assert_eq!(r.stderr, "program must be a .wasm module");
    let tasks = sh.scheduler().snapshot();
    assert_eq!(tasks.len(), 2);
    assert_eq!(tasks[0].id, 5);
    assert!(matches!(tasks[0].state, TaskState::Ready));
}

#[test]
fn spawns_keep_the_given_id_and_refuse_bad_programs() {
    let mut sh = shell();
    let id = uuid::Uuid::new_v4().as_u128();
    let task = sh
        .spawn(SpawnRequest { program: "a.wasm".to_string(), argv: vec![], app_id: "a".to_string() }, id)
        .unwrap();
    assert_eq!(task.id, id);
    assert!(matches!(task.state, TaskState::Running));
    let err = sh
        .spawn(SpawnRequest { program: "a".to_string(), argv: vec![], app_id: "a".to_string() }, 9)
        .unwrap_err();
    assert!(matches!(err, LaunchError::NotWasm));
    assert_eq!(err.message(), "program must be a .wasm module");
    let err = sh
        .spawn(
            SpawnRequest { program: "x.wasm".to_string(), argv: vec![], app_id: "../../etc".to_string() },
            10,
        )
        .unwrap_err();
    assert!(matches!(err, LaunchError::Fs(FsRefusal::Traversal)));
    let r = sh.execute("spawn ../x x.wasm", 11);
    assert_eq!((r.status, r.stderr.as_str()), (1, "directory traversal is forbidden"));
    let r = sh.execute("help", 12);
    assert_eq!(r.status, 0);
}

#[test]
fn app_view_refuses_traversal_and_adds_nothing() {
    let mut fs = VirtualFileSystem::bootstrap();
    assert!(matches!(fs.app_view("../../etc"), Err(FsRefusal::Traversal)));
    assert_eq!(fs.read_dir("/apps").unwrap().len(), 0);
    assert!(fs.read_dir("/data/apps").is_err() || fs.read_dir("/data/apps").unwrap().is_empty());
}

#[test]
fn spawned_ids_are_hyphenated_lowercase_hex() {
    let mut sh = shell();
    let r = sh.execute("spawn a a.wasm", 0);
    assert_eq!(r.stdout, "spawned 00000000-0000-0000-0000-000000000000");
    let r = sh.execute("spawn b b.wasm", u128::MAX);
    assert_eq!(r.stdout, "spawned ffffffff-ffff-ffff-ffff-ffffffffffff");
}

#[test]
fn responses_carry_status() {
    let a = ok("c", "out".to_string());
    assert_eq!((a.status, a.stderr.as_str()), (0, ""));
    let b = err("c", "bad".to_string());
    assert_eq!((b.status, b.stdout.as_str(), b.stderr.as_str()), (1, "", "bad"));
}

#[test]
fn api_rules() {
    let apps = list_apps();
    assert_eq!(apps.len(), 4);
    assert_eq!(apps[0].id, "calculator");
    assert_eq!(apps[2].title, "Files");
    assert_eq!(apps[3].entrypoint, "/apps/settings/index.html");
    assert!(apps.iter().all(|a| a.sandbox == "allow-scripts"));
    assert_eq!(listing_path(None), "/data");
    assert_eq!(listing_path(Some("/apps")), "/apps");
    assert_eq!(deletion_path("data/x"), "/data/x");
}

#[test]
fn unknown_apps_are_offline_and_get_a_session() {
    let net = NetManager::new();
    let p = net.policy_for("notes");
    assert!(p.offline_only);
    assert_eq!(p.app_id, "notes");
    assert_eq!(p.http_hosts.len(), 0);
    let mut gui = GuiBroker::new();
    let s = gui.session_for("notes");
    assert_eq!(s.app_id, "notes");
    assert!(s.windows.is_empty());
    assert!(gui.drain_events().is_empty());
}

#[test]
fn host_is_made_only_with_an_engine() {
    let failed = RuntimeHost::with_engine(
        Err(anyhow::Error::msg("no engine here")),
        VirtualFileSystem::bootstrap(),
        NetManager::new(),
        GuiBroker::new(),
    );
    assert_eq!(failed.err().map(|e| e.to_string()), Some("no engine here".to_string()));
    let made = RuntimeHost::with_engine(
        Ok(GuestEngine { engine: wasmtime::Engine::default(), settings: EngineSettings::desktop() }),
        VirtualFileSystem::bootstrap(),
        NetManager::new(),
        GuiBroker::new(),
    );
    assert!(made.is_ok());
    let s = EngineSettings::desktop();
    assert!(s.async_support && s.component_model && s.consume_fuel);
}
