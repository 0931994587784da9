use wasmos::classic::gui::{GuiCommand, GuiHost, WindowSpec};
use wasmos::classic::net::{NetworkController, NetworkPolicy, UrlRefusal};
use wasmos::classic::scheduler::{Scheduler, TaskSpec, TaskState};
use wasmos::classic::shell::HELP_TEXT;
use wasmos::classic::vfs::{FsError, VirtualFileSystem};
use wasmos::classic::WasmOs;
use wasmos::ordered::TextMap;

#[test]
fn shell_writes_and_reads_back_text() {
    let mut os = WasmOs::bootstrap();
    assert_eq!(os.shell.handle_command("write /notes hello   world").unwrap(), "wrote /notes");
    assert_eq!(os.shell.handle_command("cat /notes").unwrap(), "hello world");
    assert_eq!(os.shell.handle_command("  ").unwrap(), "");
    assert_eq!(os.shell.handle_command("help").unwrap(), HELP_TEXT);
    assert_eq!(os.shell.handle_command("frobnicate x").unwrap(), "unknown command: frobnicate");
}

#[test]
fn shell_reports_filesystem_errors() {
    let mut os = WasmOs::bootstrap();
    assert_eq!(os.shell.handle_command("cat /nope"), Err(FsError::MissingPath));
    assert_eq!(os.shell.handle_command("cat"), Err(FsError::IsADirectory));
    assert_eq!(os.shell.handle_command("ls").unwrap(), "");
    os.shell.handle_command("write /f x").unwrap();
    assert_eq!(os.shell.handle_command("ls /f"), Err(FsError::NotADirectory));
    assert_eq!(FsError::MissingPath.message(), "missing path");
}

#[test]
fn shell_write_defaults() {
    let mut os = WasmOs::bootstrap();
    assert_eq!(os.shell.handle_command("write").unwrap(), "wrote /tmp/out.txt");
    assert_eq!(os.shell.handle_command("cat /tmp/out.txt").unwrap(), "");
}

#[test]
fn run_schedules_a_task_and_opens_its_window() {
    let mut os = WasmOs::bootstrap();
    assert_eq!(os.shell.handle_command("run /bin/demo.wasm").unwrap(), "scheduled /bin/demo.wasm");
    assert_eq!(os.shell.handle_command("run").unwrap(), "scheduled /bin/app.wasm");
    assert_eq!(os.shell.runtime().gui_ref().window_count(), 2);
    let mut scheduler = Scheduler::new();
    let pid = scheduler.enqueue(TaskSpec::wasm("/bin/demo.wasm".to_string()));
    assert_eq!(pid, 1);
}

#[test]
fn tick_is_round_robin() {
    let mut s = Scheduler::new();
    let a = s.enqueue(TaskSpec::wasm("a.wasm".to_string()));
    let b = s.enqueue(TaskSpec::wasm("b.wasm".to_string()));
    let first = s.tick().unwrap();
    assert_eq!(first.pid, a);
    assert_eq!(first.ticks, 1);
    assert!(matches!(first.state, TaskState::Running));
    assert_eq!(s.tick().unwrap().pid, b);
    assert_eq!(s.tick().unwrap().pid, a);
    s.exit(b, 3);
    let again = s.tick().unwrap();
    assert_eq!(again.pid, b);
    assert_eq!(again.ticks, 2);
    assert!(Scheduler::new().tick().is_none());
}

#[test]
fn windows_are_numbered_from_the_count() {
    let mut gui = GuiHost::new();
    let spec = |t: &str| WindowSpec { title: t.to_string(), width: 1, height: 1 };
    assert_eq!(gui.apply(GuiCommand::CreateWindow(spec("a"))), Some(1));
    assert_eq!(gui.apply(GuiCommand::CreateWindow(spec("b"))), Some(2));
    assert_eq!(gui.apply(GuiCommand::CloseWindow { window_id: 1 }), None);
    assert_eq!(gui.apply(GuiCommand::CreateWindow(spec("c"))), Some(2));
    assert_eq!(gui.window_count(), 1);
    assert_eq!(
        gui.apply(GuiCommand::DrawText { window_id: 2, x: 0, y: 0, text: "t".to_string() }),
        None
    );
}

#[test]
fn urls_pass_the_scheme_and_host_gate() {
    let mut net = NetworkController::new();
    let ok = net.authorize_url("https://example.com/a").unwrap();
    assert_eq!(ok.href, "https://example.com/a");
    assert!(matches!(net.authorize_url("ws://example.com"), Err(UrlRefusal::SchemeBlocked)));
    assert!(matches!(net.authorize_url("no scheme"), Err(UrlRefusal::Unparsable(_))));
    let mut hosts = TextMap::new();
    hosts.insert("allowed.example".to_string(), ());
    net.set_policy(NetworkPolicy {
        allow_http: true,
        allow_websocket: true,
        allow_tcp: false,
        allowed_hosts: hosts,
    });
    assert!(net.authorize_url("wss://allowed.example/s").is_ok());
    assert!(matches!(net.authorize_url("http://other.example"), Err(UrlRefusal::HostBlocked)));
    assert!(matches!(net.authorize_url("tcp://allowed.example:9"), Err(UrlRefusal::SchemeBlocked)));
    let default = NetworkPolicy::default();
    assert!(default.allow_http && !default.allow_tcp);
}

#[test]
fn files_read_back_leniently() {
    let mut fs = VirtualFileSystem::new();
    fs.write_string("/t", "ünïcode").unwrap();
    assert_eq!(fs.read_to_string("/t").unwrap(), "ünïcode");
    assert_eq!(fs.list("/").unwrap(), Vec::<String>::new());
    assert_eq!(fs.read_to_string("/"), Err(FsError::IsADirectory));
}
