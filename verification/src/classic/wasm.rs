//! The part of the first runtime's host that prepares a task: each task gets
//! a window titled after its program.
use crate::classic::gui::{GuiCommand, GuiHost, WindowSpec};
use crate::classic::net::NetworkController;
use crate::classic::scheduler::TaskSpec;
use vstd::prelude::*;

verus! {

/// The width of the window a task gets.
pub const TASK_WINDOW_WIDTH: u32 = 800;

/// The height of the window a task gets.
pub const TASK_WINDOW_HEIGHT: u32 = 600;

/// The subsystems a task is prepared against.
#[derive(Debug)]
pub struct RuntimeHost {
    network: NetworkController,
    gui: GuiHost,
}

/// `post` is `pre` with one more window, numbered one past the count of open
/// windows and opened with `title` at the task window size.
pub open spec fn window_opened(pre: GuiHost, post: GuiHost, title: Seq<char>) -> bool {
    let id = (pre.windows().dom().len() + 1) as u64;
    &&& post.windows().dom() == pre.windows().dom().insert(id)
    &&& post.windows()[id]@ == (title, TASK_WINDOW_WIDTH, TASK_WINDOW_HEIGHT)
    &&& forall|k: u64| k != id && #[trigger] pre.windows().dom().contains(k) ==> post.windows()[k]
        == pre.windows()[k]
}

impl RuntimeHost {
    pub closed spec fn wf(&self) -> bool {
        self.network.wf() && self.gui.wf()
    }

    /// The URL gate.
    pub closed spec fn network(&self) -> NetworkController {
        self.network
    }

    /// The window table.
    pub closed spec fn gui(&self) -> GuiHost {
        self.gui
    }

    pub fn new(network: NetworkController, gui: GuiHost) -> (h: Self)
        requires
            network.wf(),
            gui.wf(),
        ensures
            h.wf(),
            h.network() == network,
            h.gui() == gui,
    {
        RuntimeHost { network, gui }
    }

    /// The URL gate.
    pub fn network_ref(&self) -> (n: &NetworkController)
        ensures
            *n == self.network(),
    {
        &self.network
    }

    /// The window table.
    pub fn gui_ref(&self) -> (g: &GuiHost)
        ensures
            *g == self.gui(),
    {
        &self.gui
    }

    /// Whether one more window can be numbered.
    pub fn can_open_window(&self) -> (b: bool)
        requires
            self.wf(),
        ensures
            b == (self.gui().windows().dom().len() < u64::MAX),
    {
        (self.gui.window_count() as u64) < u64::MAX
    }

    /// Prepares a task: opens its window, titled after its program.
    pub fn prepare_task(&mut self, spec: &TaskSpec)
        requires
            old(self).wf(),
            old(self).gui().windows().dom().len() < u64::MAX,
        ensures
            final(self).wf(),
            final(self).network() == old(self).network(),
            window_opened(old(self).gui(), final(self).gui(), spec.program@),
    {
        let window = WindowSpec {
            title: spec.program.clone(),
            width: TASK_WINDOW_WIDTH,
            height: TASK_WINDOW_HEIGHT,
        };
        let _ = self.gui.apply(GuiCommand::CreateWindow(window));
    }
}

} // verus!
