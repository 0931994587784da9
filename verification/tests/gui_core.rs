use wasmos::gui::{DrawCommand, GuiSubsystem, WindowDescriptor};
use wasmos::host::{HostBridge, HostKind};

#[test]
fn gui_window_lifecycle_is_host_backed() {
    let host = HostBridge::detect(false);
    let mut gui = GuiSubsystem::new(host);
    let window_id = gui.create_window(
        99,
        WindowDescriptor { title: "test-window".to_string(), width: 160, height: 120 },
    );
    gui.draw(
        99,
        window_id,
        vec![
            DrawCommand::Clear { rgba: [0, 0, 0, 255] },
            DrawCommand::Text { x: 2, y: 2, text: "ok".to_string(), rgba: [255, 255, 255, 255] },
        ],
    );
    let events = gui.poll_events(99, window_id);
    let windows = gui.list_windows();

    assert!(events.is_empty(), "in-memory backend starts with empty event queue");
    assert_eq!(windows.len(), 1, "window should be tracked by subsystem");
    assert_eq!(windows[0].id, window_id);
    assert_eq!(windows[0].owner_task_id, 99);
}

#[test]
fn window_ids_carry_owner_and_width() {
    let mut gui = GuiSubsystem::new(HostBridge::detect(false));
    let id = gui.create_window(3, WindowDescriptor { title: "w".to_string(), width: 7, height: 1 });
    assert_eq!(id, (3u64 << 32) | 7);
    assert_eq!(gui.list_windows()[0].descriptor.title, "w");
}

#[test]
fn host_detection_follows_the_target() {
    let native = HostBridge::detect(false);
    assert!(matches!(native.kind(), HostKind::Desktop));
    assert!(native.capabilities().tcp);
    let web = HostBridge::detect(true);
    assert!(matches!(web.kind(), HostKind::Browser));
    assert!(!web.capabilities().tcp);
}
