//! The window table of the first runtime: windows are numbered from the count
//! of open windows.
use crate::ordered::IdMap;
use vstd::prelude::*;

verus! {

/// What a window is opened with.
#[derive(Debug)]
pub struct WindowSpec {
    pub title: String,
    pub width: u32,
    pub height: u32,
}

impl WindowSpec {
    pub open spec fn view(&self) -> (Seq<char>, u32, u32) {
        (self.title@, self.width, self.height)
    }
}

/// A request to the window table.
#[derive(Debug)]
pub enum GuiCommand {
    CreateWindow(WindowSpec),
    DrawText { window_id: u64, x: u32, y: u32, text: String },
    DrawPixels { window_id: u64, width: u32, height: u32, rgba: Vec<u8> },
    CloseWindow { window_id: u64 },
}

/// The open windows by id.
#[derive(Debug)]
pub struct GuiHost {
    windows: IdMap<WindowSpec>,
}

impl GuiHost {
    pub closed spec fn wf(&self) -> bool {
        self.windows.wf()
    }

    /// The open windows.
    pub closed spec fn windows(&self) -> Map<u64, WindowSpec> {
        self.windows@
    }

    /// A table with no window.
    pub fn new() -> (g: Self)
        ensures
            g.wf(),
            g.windows() == Map::<u64, WindowSpec>::empty(),
    {
        GuiHost { windows: IdMap::new() }
    }

    /// How many windows are open.
    pub fn window_count(&self) -> (n: usize)
        requires
            self.wf(),
        ensures
            n == self.windows().dom().len(),
    {
        self.windows.len()
    }

    /// Carries out a command: a new window gets the number one past the count
    /// of open windows (replacing a window that already has that number) and
    /// that number is returned; a closed window leaves the table; drawing
    /// changes nothing.
    pub fn apply(&mut self, command: GuiCommand) -> (r: Option<u64>)
        requires
            old(self).wf(),
            old(self).windows().dom().len() < u64::MAX,
        ensures
            final(self).wf(),
            match command {
                GuiCommand::CreateWindow(spec) => {
                    let id = (old(self).windows().dom().len() + 1) as u64;
                    r == Some(id) && final(self).windows() == old(self).windows().insert(id, spec)
                },
                GuiCommand::CloseWindow { window_id } => r is None && final(self).windows() == old(
                    self,
                ).windows().remove(window_id),
                _ => r is None && final(self).windows() == old(self).windows(),
            },
    {
        match command {
            GuiCommand::CreateWindow(spec) => {
                let id = self.windows.len() as u64 + 1;
                self.windows.insert(id, spec);
                Some(id)
            },
            GuiCommand::CloseWindow { window_id } => {
                self.windows.remove(window_id);
                None
            },
            GuiCommand::DrawText { .. } => None,
            GuiCommand::DrawPixels { .. } => None,
        }
    }
}

} // verus!
