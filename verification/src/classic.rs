//! The first, single-program runtime: a shell over an in-memory filesystem,
//! a round-robin task queue, a URL gate and a window table.
use crate::classic::gui::GuiHost;
use crate::classic::net::NetworkController;
use crate::classic::scheduler::{Scheduler, TaskView};
use crate::classic::shell::Shell;
use crate::classic::vfs::VirtualFileSystem;
use crate::classic::wasm::RuntimeHost;
use vstd::prelude::*;

pub mod gui;
pub mod net;
pub mod scheduler;
pub mod vfs;
pub mod wasm;
pub mod shell;

verus! {

/// The whole first runtime, reached through its shell.
#[derive(Debug)]
pub struct WasmOs {
    pub shell: Shell,
}

impl WasmOs {
    /// A system with an empty root directory, no task, the default network
    /// policy and no window.
    pub fn bootstrap() -> (os: Self)
        ensures
            os.shell.wf(),
            os.shell.fs().nodes().dom() == set!["/"@],
            os.shell.sched().last_pid() == 0,
            os.shell.sched().ready() == Seq::<u64>::empty(),
            os.shell.sched().tasks() == Map::<u64, TaskView>::empty(),
            os.shell.host().network().current().allow_http,
            !os.shell.host().network().current().allow_websocket,
            !os.shell.host().network().current().allow_tcp,
            os.shell.host().network().current().hosts() == Set::<Seq<char>>::empty(),
            os.shell.host().gui().windows() == Map::<u64, crate::classic::gui::WindowSpec>::empty(),
    {
        let vfs = VirtualFileSystem::new();
        let network = NetworkController::new();
        let gui = GuiHost::new();
        let scheduler = Scheduler::new();
        let runtime = RuntimeHost::new(network, gui);
        WasmOs { shell: Shell::new(vfs, scheduler, runtime) }
    }
}

} // verus!
