//! Host-rendered windows: the registry of windows that tasks open, the draw
//! commands they send and the events they poll.
use crate::host::HostBridge;
use crate::ordered::{IdMap, id_listing, id_values};
use vstd::prelude::*;

verus! {

pub type WindowId = u64;

#[derive(Debug)]
pub struct WindowDescriptor {
    pub title: String,
    pub width: u32,
    pub height: u32,
}

impl WindowDescriptor {
    pub fn duplicate(&self) -> (r: Self)
        ensures
            r.title@ == self.title@,
            r.width == self.width,
            r.height == self.height,
    {
        WindowDescriptor { title: self.title.clone(), width: self.width, height: self.height }
    }
}

#[derive(Debug)]
pub enum DrawCommand {
    Clear { rgba: [u8; 4] },
    Pixel { x: u32, y: u32, rgba: [u8; 4] },
    Text { x: u32, y: u32, text: String, rgba: [u8; 4] },
}

#[derive(Debug, Clone, Copy, PartialEq, Eq, Structural)]
pub enum GuiEvent {
    KeyDown { key_code: u32 },
    KeyUp { key_code: u32 },
    MouseMove { x: i32, y: i32 },
    MouseClick { x: i32, y: i32, button: u8 },
    CloseRequested,
}

/// A window as the registry shows it.
#[derive(Debug)]
pub struct WindowInfo {
    pub id: WindowId,
    pub owner_task_id: u64,
    pub descriptor: WindowDescriptor,
}

/// What the registry records of a window: owner, title, width, height.
pub type WindowRecord = (u64, Seq<char>, u32, u32);

/// The id a window gets: the owner task in the high half, the width in the
/// low half.
pub open spec fn window_id_for(task_id: u64, width: u32) -> u64 {
    (task_id << 32u64) | (width as u64)
}

#[derive(Debug)]
struct WindowEntry {
    owner: u64,
    descriptor: WindowDescriptor,
}

#[derive(Debug)]
pub struct GuiSubsystem {
    host: HostBridge,
    windows: IdMap<WindowEntry>,
}

pub open spec fn info_record(w: WindowInfo) -> (u64, WindowRecord) {
    (w.id, (w.owner_task_id, w.descriptor.title@, w.descriptor.width, w.descriptor.height))
}

impl GuiSubsystem {
    pub closed spec fn wf(&self) -> bool {
        self.windows.wf()
    }

    /// The open windows by id.
    pub closed spec fn windows(&self) -> Map<u64, WindowRecord> {
        self.windows@.map_values(
            |e: WindowEntry| (e.owner, e.descriptor.title@, e.descriptor.width, e.descriptor.height),
        )
    }

    /// The open windows in id order.
    pub closed spec fn window_entries(&self) -> Seq<(u64, WindowRecord)> {
        self.windows.items().map_values(
            |e: (u64, WindowEntry)|
                (e.0, (e.1.owner, e.1.descriptor.title@, e.1.descriptor.width, e.1.descriptor.height)),
        )
    }

    /// The open windows in id order list every open window once.
    pub proof fn lemma_window_entries(&self)
        requires
            self.wf(),
        ensures
            id_listing(self.window_entries(), self.windows()),
    {
        let f = |e: WindowEntry| (e.owner, e.descriptor.title@, e.descriptor.width, e.descriptor.height);
        self.windows.lemma_listing(f);
        assert(self.window_entries() =~= self.windows.items().map_values(
            |e: (u64, WindowEntry)| (e.0, f(e.1)),
        ));
        assert(self.windows() =~= self.windows@.map_values(f));
    }

    pub fn new(host: HostBridge) -> (g: Self)
        ensures
            g.wf(),
            g.windows() == Map::<u64, WindowRecord>::empty(),
    {
        let g = GuiSubsystem { host, windows: IdMap::new() };
        assert(g.windows() =~= Map::<u64, WindowRecord>::empty());
        g
    }

    /// Opens a window for a task (replacing one with the same id).
    pub fn create_window(&mut self, task_id: u64, descriptor: WindowDescriptor) -> (id: WindowId)
        requires
            old(self).wf(),
        ensures
            final(self).wf(),
            id == window_id_for(task_id, descriptor.width),
            final(self).windows() == old(self).windows().insert(
                id,
                (task_id, descriptor.title@, descriptor.width, descriptor.height),
            ),
    {
        let window_id = (task_id << 32u64) | (descriptor.width as u64);
        let ghost rec = (task_id, descriptor.title@, descriptor.width, descriptor.height);
        self.windows.insert(window_id, WindowEntry { owner: task_id, descriptor });
        proof {
            assert(self.windows() =~= old(self).windows().insert(window_id, rec));
        }
        window_id
    }

    /// Hands draw commands to the renderer; the in-memory backend draws
    /// nothing.
    pub fn draw(&self, task_id: u64, window_id: WindowId, commands: Vec<DrawCommand>) {
    }

    /// The events pending for a window; the in-memory backend has none.
    pub fn poll_events(&self, task_id: u64, window_id: WindowId) -> (v: Vec<GuiEvent>)
        ensures
            v@.len() == 0,
    {
        Vec::new()
    }

    /// The open windows, in id order.
    pub fn list_windows(&self) -> (v: Vec<WindowInfo>)
        requires
            self.wf(),
        ensures
            v@.map_values(|w: WindowInfo| info_record(w)) == self.window_entries(),
    {
        let mut out: Vec<WindowInfo> = Vec::new();
        let mut i: usize = 0;
        let ghost s = self.window_entries();
        while i < self.windows.len()
            invariant
                i <= self.windows.items().len(),
                s == self.window_entries(),
                s.len() == self.windows.items().len(),
                out@.map_values(|w: WindowInfo| info_record(w)) == s.take(i as int),
            decreases self.windows.items().len() - i,
        {
            let id = self.windows.key_at(i);
            let e = self.windows.value_at(i);
            let ghost before = out@;
            let info = WindowInfo { id, owner_task_id: e.owner, descriptor: e.descriptor.duplicate() };
            out.push(info);
            proof {
                assert(out@.map_values(|w: WindowInfo| info_record(w)) =~= before.map_values(
                    |w: WindowInfo| info_record(w),
                ).push(info_record(info)));
                assert(s.take(i + 1) =~= s.take(i as int).push(s[i as int]));
            }
            i = i + 1;
        }
        proof {
            assert(s.take(s.len() as int) =~= s);
        }
        out
    }
}

/// A window id gives back the low half of its owner task and its width.
pub proof fn law_window_id_encodes_owner_and_width(task_id: u64, width: u32)
    ensures
        window_id_for(task_id, width) >> 32u64 == task_id & 0xffff_ffffu64,
        window_id_for(task_id, width) & 0xffff_ffffu64 == width as u64,
{
    let w = width as u64;
    assert(w <= 0xffff_ffffu64);
    assert(((task_id << 32u64) | w) >> 32u64 == task_id & 0xffff_ffffu64) by (bit_vector)
        requires
            w <= 0xffff_ffffu64,
    ;
    assert(((task_id << 32u64) | w) & 0xffff_ffffu64 == w) by (bit_vector)
        requires
            w <= 0xffff_ffffu64,
    ;
}

} // verus!
