//! The desktop's window sessions: one per app, made on first use, and the
//! queue of GUI events waiting for the web desktop.
use crate::ordered::TextMap;
use vstd::prelude::*;

verus! {

/// A window of a session.
#[derive(Debug)]
pub struct WindowDescriptor {
    pub id: String,
    pub title: String,
    pub width: u32,
    pub height: u32,
}

impl WindowDescriptor {
    pub open spec fn view(&self) -> (Seq<char>, Seq<char>, u32, u32) {
        (self.id@, self.title@, self.width, self.height)
    }

    /// A copy of the descriptor.
    pub fn duplicate(&self) -> (w: Self)
        ensures
            w@ == self@,
    {
        WindowDescriptor {
            id: self.id.clone(),
            title: self.title.clone(),
            width: self.width,
            height: self.height,
        }
    }
}

/// The windows of one app.
#[derive(Debug)]
pub struct GuiSession {
    pub app_id: String,
    pub windows: Vec<WindowDescriptor>,
}

/// The views of a list of windows.
pub open spec fn window_views(v: Seq<WindowDescriptor>) -> Seq<(Seq<char>, Seq<char>, u32, u32)> {
    v.map_values(|w: WindowDescriptor| w@)
}

impl GuiSession {
    pub open spec fn view(&self) -> (Seq<char>, Seq<(Seq<char>, Seq<char>, u32, u32)>) {
        (self.app_id@, window_views(self.windows@))
    }

    /// A copy of the session.
    pub fn duplicate(&self) -> (s: Self)
        ensures
            s@ == self@,
    {
        let mut windows: Vec<WindowDescriptor> = Vec::new();
        let mut i: usize = 0;
        while i < self.windows.len()
            invariant
                i <= self.windows@.len(),
                window_views(windows@) == window_views(self.windows@).take(i as int),
            decreases self.windows@.len() - i,
        {
            let w = self.windows[i].duplicate();
            proof {
                assert(window_views(windows@.push(w)) =~= window_views(windows@).push(w@));
                assert(window_views(self.windows@).take(i + 1) =~= window_views(self.windows@).take(
                    i as int,
                ).push(self.windows@[i as int]@));
            }
            windows.push(w);
            i = i + 1;
        }
        proof {
            assert(window_views(self.windows@).take(self.windows@.len() as int) =~= window_views(
                self.windows@,
            ));
        }
        GuiSession { app_id: self.app_id.clone(), windows }
    }
}

/// The sessions by app, and the events not yet handed out.
#[derive(Debug)]
pub struct GuiBroker {
    sessions: TextMap<GuiSession>,
    events: Vec<serde_json::Value>,
}

impl GuiBroker {
    pub closed spec fn wf(&self) -> bool {
        self.sessions.wf()
    }

    /// The session of each app that has one.
    pub closed spec fn sessions(
        &self,
    ) -> Map<Seq<char>, (Seq<char>, Seq<(Seq<char>, Seq<char>, u32, u32)>)> {
        self.sessions@.map_values(|s: GuiSession| s@)
    }

    /// The events waiting, oldest first.
    pub closed spec fn events(&self) -> Seq<serde_json::Value> {
        self.events@
    }

    /// A broker with no session and no event.
    pub fn new() -> (b: Self)
        ensures
            b.wf(),
            b.sessions().dom() == Set::<Seq<char>>::empty(),
            b.events() == Seq::<serde_json::Value>::empty(),
    {
        let b = GuiBroker { sessions: TextMap::new(), events: Vec::new() };
        proof {
            assert(b.sessions().dom() =~= Set::<Seq<char>>::empty());
        }
        b
    }

    /// The session of an app, made empty on first use.
    pub fn session_for(&mut self, app_id: &str) -> (s: GuiSession)
        requires
            old(self).wf(),
        ensures
            final(self).wf(),
            final(self).events() == old(self).events(),
            old(self).sessions().dom().contains(app_id@) ==> final(self).sessions() == old(
                self,
            ).sessions() && s@ == old(self).sessions()[app_id@],
            !old(self).sessions().dom().contains(app_id@) ==> {
                &&& s@ == (app_id@, Seq::<(Seq<char>, Seq<char>, u32, u32)>::empty())
                &&& final(self).sessions() == old(self).sessions().insert(app_id@, s@)
            },
    {
        match self.sessions.get(app_id) {
            Some(session) => session.duplicate(),
            None => {
                let fresh = GuiSession { app_id: app_id.to_string(), windows: Vec::new() };
                let copy = fresh.duplicate();
                proof {
                    assert(window_views(fresh.windows@) =~= Seq::<(Seq<char>, Seq<char>, u32, u32)>::empty());
                }
                let ghost fv = fresh;
                self.sessions.insert(app_id.to_string(), fresh);
                proof {
                    assert(self.sessions() =~= old(self).sessions().insert(app_id@, fv@));
                }
                copy
            },
        }
    }

    /// Hands out every waiting event, oldest first, and empties the queue.
    pub fn drain_events(&mut self) -> (v: Vec<serde_json::Value>)
        requires
            old(self).wf(),
        ensures
            final(self).wf(),
            v@ == old(self).events(),
            final(self).events() == Seq::<serde_json::Value>::empty(),
            final(self).sessions() == old(self).sessions(),
    {
        let mut out: Vec<serde_json::Value> = Vec::new();
        std::mem::swap(&mut out, &mut self.events);
        out
    }
}

} // verus!
