//! The names under which the host exports each syscall in the `wasmos`
//! import module.
use vstd::prelude::*;

verus! {

pub const YIELD_NOW: &'static str = "yield_now";

pub const SLEEP_MS: &'static str = "sleep_ms";

pub const WAIT_EVENT: &'static str = "wait_event";

pub const VFS_OPEN: &'static str = "vfs_open";

pub const VFS_CLOSE: &'static str = "vfs_close";

pub const VFS_FD_READ: &'static str = "vfs_fd_read";

pub const VFS_FD_WRITE: &'static str = "vfs_fd_write";

pub const VFS_SEEK: &'static str = "vfs_seek";

pub const VFS_LIST_DIR: &'static str = "vfs_list_dir";

pub const VFS_MKDIR: &'static str = "vfs_mkdir";

pub const VFS_DELETE: &'static str = "vfs_delete";

pub const NET_HTTP: &'static str = "net_http";

pub const NET_WS_OPEN: &'static str = "net_ws_open";

pub const NET_WS_SEND_TEXT: &'static str = "net_ws_send_text";

pub const NET_TCP_CONNECT: &'static str = "net_tcp_connect";

pub const GUI_OPEN_WINDOW: &'static str = "gui_open_window";

pub const GUI_DRAW: &'static str = "gui_draw";

pub const GUI_POLL_EVENTS: &'static str = "gui_poll_events";

} // verus!
