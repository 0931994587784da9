//! The task scheduler: a ready queue, a wait queue keyed by task, and a
//! logical clock. Running a task is the runtime's work; the scheduler decides
//! which task runs next (`begin_tick`, `begin_task_once`) and what the way a
//! quantum ended means for the task (`complete_dispatch`).
use crate::ordered::{IdMap, id_listing, id_values};
use crate::runtime::{BlockView, PollView, ProgramLaunchRequest, RuntimeBlockReason, RuntimePoll};
use crate::text::text_eq;
use vstd::prelude::*;

verus! {

pub type TaskId = u64;

#[derive(Debug, Clone, Copy, PartialEq, Eq, Structural)]
pub enum SchedulingMode {
    Cooperative,
    Preemptive { quantum_ms: u64 },
}

/// Why a task is off the ready queue.
#[derive(Debug)]
pub enum WaitState {
    Sleeping { wake_at_tick: u64 },
    Io { channel: String },
}

pub enum WaitView {
    Sleeping(u64),
    Io(Seq<char>),
}

impl View for WaitState {
    type V = WaitView;

    open spec fn view(&self) -> WaitView {
        match self {
            WaitState::Sleeping { wake_at_tick } => WaitView::Sleeping(*wake_at_tick),
            WaitState::Io { channel } => WaitView::Io(channel@),
        }
    }
}

impl WaitState {
    pub fn duplicate(&self) -> (r: Self)
        ensures
            r@ == self@,
    {
        match self {
            WaitState::Sleeping { wake_at_tick } => WaitState::Sleeping { wake_at_tick: *wake_at_tick },
            WaitState::Io { channel } => WaitState::Io { channel: channel.clone() },
        }
    }
}

#[derive(Debug)]
pub enum TaskState {
    Ready,
    Running { quantum_ms: u64 },
    Yielded,
    Waiting(WaitState),
    Exited(i32),
    Failed(String),
}

pub enum StateView {
    Ready,
    Running(u64),
    Yielded,
    Waiting(WaitView),
    Exited(i32),
    Failed(Seq<char>),
}

impl View for TaskState {
    type V = StateView;

    open spec fn view(&self) -> StateView {
        match self {
            TaskState::Ready => StateView::Ready,
            TaskState::Running { quantum_ms } => StateView::Running(*quantum_ms),
            TaskState::Yielded => StateView::Yielded,
            TaskState::Waiting(w) => StateView::Waiting(w@),
            TaskState::Exited(c) => StateView::Exited(*c),
            TaskState::Failed(m) => StateView::Failed(m@),
        }
    }
}

impl TaskState {
    pub fn duplicate(&self) -> (r: Self)
        ensures
            r@ == self@,
    {
        match self {
            TaskState::Ready => TaskState::Ready,
            TaskState::Running { quantum_ms } => TaskState::Running { quantum_ms: *quantum_ms },
            TaskState::Yielded => TaskState::Yielded,
            TaskState::Waiting(w) => TaskState::Waiting(w.duplicate()),
            TaskState::Exited(c) => TaskState::Exited(*c),
            TaskState::Failed(m) => TaskState::Failed(m.clone()),
        }
    }
}

#[derive(Debug)]
pub struct TaskControlBlock {
    pub id: TaskId,
    pub name: String,
    pub module_location: String,
    pub state: TaskState,
    pub timeslices: u64,
    pub wake_tick: Option<u64>,
    pub wait_channel: Option<String>,
}

pub struct TcbView {
    pub id: TaskId,
    pub name: Seq<char>,
    pub module_location: Seq<char>,
    pub state: StateView,
    pub timeslices: u64,
    pub wake_tick: Option<u64>,
    pub wait_channel: Option<Seq<char>>,
}

impl View for TaskControlBlock {
    type V = TcbView;

    open spec fn view(&self) -> TcbView {
        TcbView {
            id: self.id,
            name: self.name@,
            module_location: self.module_location@,
            state: self.state@,
            timeslices: self.timeslices,
            wake_tick: self.wake_tick,
            wait_channel: match self.wait_channel {
                Some(c) => Some(c@),
                None => None,
            },
        }
    }
}

impl TaskControlBlock {
    pub fn duplicate(&self) -> (r: Self)
        ensures
            r@ == self@,
    {
        TaskControlBlock {
            id: self.id,
            name: self.name.clone(),
            module_location: self.module_location.clone(),
            state: self.state.duplicate(),
            timeslices: self.timeslices,
            wake_tick: self.wake_tick,
            wait_channel: match &self.wait_channel {
                Some(c) => Some(c.clone()),
                None => None,
            },
        }
    }
}

/// A task handed to the runtime for one quantum.
#[derive(Debug, Clone, Copy, PartialEq, Eq, Structural)]
pub struct Dispatch {
    pub task_id: TaskId,
    pub quantum_ms: u64,
    pub tick: u64,
}

// ---------------------------------------------------------------------------
// The transitions, as functions on views
// ---------------------------------------------------------------------------
/// A task put in state `s`; outside the waiting state it holds no wake tick
/// and no wait channel.
pub open spec fn with_state(t: TcbView, s: StateView) -> TcbView {
    if s is Waiting {
        TcbView { state: s, ..t }
    } else {
        TcbView { state: s, wake_tick: None, wait_channel: None, ..t }
    }
}

/// The tasks with task `id` (if it is known) put in state `s`.
pub open spec fn marked(tasks: Map<u64, TcbView>, id: u64, s: StateView) -> Map<u64, TcbView> {
    if tasks.dom().contains(id) {
        tasks.insert(id, with_state(tasks[id], s))
    } else {
        tasks
    }
}

/// A task handed a quantum.
pub open spec fn running(t: TcbView, quantum_ms: u64) -> TcbView {
    TcbView {
        state: StateView::Running(quantum_ms),
        timeslices: (t.timeslices + 1) as u64,
        wake_tick: None,
        wait_channel: None,
        ..t
    }
}

/// A task put to wait.
pub open spec fn waiting_tcb(t: TcbView, w: WaitView) -> TcbView {
    TcbView {
        state: StateView::Waiting(w),
        wake_tick: match w {
            WaitView::Sleeping(at) => Some(at),
            WaitView::Io(_) => None,
        },
        wait_channel: match w {
            WaitView::Sleeping(_) => None,
            WaitView::Io(c) => Some(c),
        },
        ..t
    }
}

/// The sleepers whose wake tick has come, in task order.
pub open spec fn due(entries: Seq<(u64, WaitView)>, tick: u64) -> Seq<u64>
    decreases entries.len(),
{
    if entries.len() == 0 {
        Seq::empty()
    } else {
        let rest = due(entries.drop_last(), tick);
        if entries.last().1 matches WaitView::Sleeping(at) && at <= tick {
            rest.push(entries.last().0)
        } else {
            rest
        }
    }
}

/// The tasks waiting on an I/O channel, in task order.
pub open spec fn io_waiters(entries: Seq<(u64, WaitView)>, channel: Seq<char>) -> Seq<u64>
    decreases entries.len(),
{
    if entries.len() == 0 {
        Seq::empty()
    } else {
        let rest = io_waiters(entries.drop_last(), channel);
        if entries.last().1 matches WaitView::Io(c) && c == channel {
            rest.push(entries.last().0)
        } else {
            rest
        }
    }
}

/// The tasks with every task of `ids` marked ready, in order.
pub open spec fn woken(tasks: Map<u64, TcbView>, ids: Seq<u64>) -> Map<u64, TcbView>
    decreases ids.len(),
{
    if ids.len() == 0 {
        tasks
    } else {
        marked(woken(tasks, ids.drop_last()), ids.last(), StateView::Ready)
    }
}

/// The wait state that a block reason becomes at `tick`.
pub open spec fn wait_for(reason: BlockView, tick: u64) -> WaitView {
    match reason {
        BlockView::Sleep(d) => WaitView::Sleeping(
            (tick + if d > 1 {
                d as int
            } else {
                1
            }) as u64,
        ),
        BlockView::Io(c) => WaitView::Io(c),
    }
}

/// The quantum that a mode gives each run.
pub open spec fn mode_quantum(mode: SchedulingMode) -> u64 {
    match mode {
        SchedulingMode::Cooperative => 0,
        SchedulingMode::Preemptive { quantum_ms } => quantum_ms,
    }
}

/// The task has finished, one way or the other.
pub open spec fn is_finished(s: StateView) -> bool {
    s is Exited || s is Failed
}


/// The ids that `due` and `io_waiters` pick are keys of the entries, picked
/// in increasing order.
pub open spec fn picked_from(ids: Seq<u64>, entries: Seq<(u64, WaitView)>) -> bool {
    &&& forall|i: int| 0 <= i < ids.len() ==> exists|j: int| 0 <= j < entries.len() && entries[j].0 == #[trigger] ids[i]
    &&& forall|i: int, j: int| 0 <= i < j < ids.len() ==> ids[i] < ids[j]
}

pub open spec fn keys_increasing(entries: Seq<(u64, WaitView)>) -> bool {
    forall|i: int, j: int| 0 <= i < j < entries.len() ==> entries[i].0 < entries[j].0
}

proof fn lemma_increasing_no_duplicates(ids: Seq<u64>)
    requires
        forall|i: int, j: int| 0 <= i < j < ids.len() ==> ids[i] < ids[j],
    ensures
        ids.no_duplicates(),
{
    assert forall|i: int, j: int| 0 <= i < ids.len() && 0 <= j < ids.len() && i != j implies ids[i] != ids[j] by {
        if i < j {
            assert(ids[i] < ids[j]);
        } else {
            assert(ids[j] < ids[i]);
        }
    }
}

pub proof fn lemma_due_picked(entries: Seq<(u64, WaitView)>, tick: u64)
    requires
        keys_increasing(entries),
    ensures
        picked_from(due(entries, tick), entries),
        forall|i: int| 0 <= i < due(entries, tick).len() ==> exists|j: int|
            0 <= j < entries.len() && entries[j].0 == #[trigger] due(entries, tick)[i]
                && (entries[j].1 matches WaitView::Sleeping(at) && at <= tick),
    decreases entries.len(),
{
    if entries.len() > 0 {
        let e = entries.drop_last();
        lemma_due_picked(e, tick);
        let r = due(e, tick);
        assert forall|i: int| 0 <= i < r.len() implies #[trigger] r[i] < entries.last().0 by {
            let j = choose|j: int| 0 <= j < e.len() && e[j].0 == r[i];
            assert(entries[j] == e[j]);
        }
        assert forall|i: int| 0 <= i < r.len() implies exists|j: int|
            0 <= j < entries.len() && entries[j].0 == #[trigger] r[i] && (entries[j].1 matches WaitView::Sleeping(at) && at <= tick) by {
            let j = choose|j: int| 0 <= j < e.len() && e[j].0 == r[i] && (e[j].1 matches WaitView::Sleeping(at) && at <= tick);
            assert(entries[j] == e[j]);
        }
        let d = due(entries, tick);
        if d.len() > r.len() {
            assert(d[r.len() as int] == entries.last().0);
            assert(entries[entries.len() - 1] == entries.last());
        }
    }
}

pub proof fn lemma_io_waiters_picked(entries: Seq<(u64, WaitView)>, channel: Seq<char>)
    requires
        keys_increasing(entries),
    ensures
        picked_from(io_waiters(entries, channel), entries),
    decreases entries.len(),
{
    if entries.len() > 0 {
        let e = entries.drop_last();
        lemma_io_waiters_picked(e, channel);
        let r = io_waiters(e, channel);
        assert forall|i: int| 0 <= i < r.len() implies #[trigger] r[i] < entries.last().0 by {
            let j = choose|j: int| 0 <= j < e.len() && e[j].0 == r[i];
            assert(entries[j] == e[j]);
        }
        assert forall|i: int| 0 <= i < r.len() implies exists|j: int|
            0 <= j < entries.len() && entries[j].0 == #[trigger] r[i] by {
            let j = choose|j: int| 0 <= j < e.len() && e[j].0 == r[i];
            assert(entries[j] == e[j]);
        }
        let d = io_waiters(entries, channel);
        if d.len() > r.len() {
            assert(d[r.len() as int] == entries.last().0);
            assert(entries[entries.len() - 1] == entries.last());
        }
    }
}

/// `s` without any occurrence of `x`.
pub open spec fn without(s: Seq<u64>, x: u64) -> Seq<u64>
    decreases s.len(),
{
    if s.len() == 0 {
        Seq::empty()
    } else {
        let rest = without(s.drop_last(), x);
        if s.last() != x {
            rest.push(s.last())
        } else {
            rest
        }
    }
}

pub proof fn lemma_without(s: Seq<u64>, x: u64)
    ensures
        forall|a: int| 0 <= a < without(s, x).len() ==> without(s, x)[a] != x && s.contains(#[trigger] without(s, x)[a]),
        s.no_duplicates() ==> without(s, x).no_duplicates(),
        forall|y: u64| s.contains(y) && y != x ==> #[trigger] without(s, x).contains(y),
    decreases s.len(),
{
    if s.len() > 0 {
        let e = s.drop_last();
        lemma_without(e, x);
        let w = without(s, x);
        let we = without(e, x);
        assert forall|a: int| 0 <= a < w.len() implies w[a] != x && s.contains(#[trigger] w[a]) by {
            if a < we.len() {
                assert(w[a] == we[a]);
                let k = choose|k: int| 0 <= k < e.len() && e[k] == we[a];
                assert(s[k] == e[k]);
            } else {
                assert(s[s.len() - 1] == s.last());
            }
        }
        if s.no_duplicates() {
            assert(e.no_duplicates()) by {
                assert forall|i: int, j: int| 0 <= i < e.len() && 0 <= j < e.len() && i != j implies e[i] != e[j] by {
                    assert(s[i] == e[i] && s[j] == e[j]);
                }
            }
            if s.last() != x {
                assert forall|a: int| 0 <= a < we.len() implies we[a] != s.last() by {
                    let k = choose|k: int| 0 <= k < e.len() && e[k] == we[a];
                    assert(s[k] == e[k]);
                    assert(s[s.len() - 1] == s.last());
                }
                assert forall|i: int, j: int| 0 <= i < w.len() && 0 <= j < w.len() && i != j implies w[i] != w[j] by {
                    if i < we.len() && j < we.len() {
                        assert(w[i] == we[i] && w[j] == we[j]);
                    } else if i < we.len() {
                        assert(w[i] == we[i]);
                    } else {
                        assert(w[j] == we[j]);
                    }
                }
            }
        }
        assert forall|y: u64| s.contains(y) && y != x implies #[trigger] w.contains(y) by {
            let k = choose|k: int| 0 <= k < s.len() && s[k] == y;
            if k < s.len() - 1 {
                assert(e[k] == y);
                assert(e.contains(y));
                assert(we.contains(y));
                let m = choose|m: int| 0 <= m < we.len() && we[m] == y;
                assert(w[m] == y);
            } else {
                assert(w[w.len() - 1] == y);
            }
        }
    }
}

pub open spec fn outcome_view(o: Result<RuntimePoll, String>) -> Result<PollView, Seq<char>> {
    match o {
        Ok(p) => Ok(p@),
        Err(m) => Err(m@),
    }
}

/// What completing a dispatch of `task_id` at `tick` with outcome `o` does:
/// the clock and the mode stay, and the task is requeued, parked, or
/// finished according to `o`.
pub open spec fn dispatch_completed(
    pre: Scheduler,
    post: Scheduler,
    task_id: u64,
    tick: u64,
    o: Result<PollView, Seq<char>>,
) -> bool {
    &&& post.clock() == pre.clock()
    &&& post.spec_mode() == pre.spec_mode()
    &&& match o {
        Ok(PollView::Ready) | Ok(PollView::Yielded) => {
            &&& post.tasks() == marked(pre.tasks(), task_id, StateView::Yielded)
            &&& post.ready() == pre.ready().push(task_id)
            &&& post.waiting() == pre.waiting()
        },
        Ok(PollView::Waiting(reason)) => {
            &&& post.waiting() == pre.waiting().insert(task_id, wait_for(reason, tick))
            &&& post.tasks() == pre.tasks().insert(
                task_id,
                waiting_tcb(pre.tasks()[task_id], wait_for(reason, tick)),
            )
            &&& post.ready() == pre.ready()
        },
        Ok(PollView::Exited(code)) => {
            &&& post.tasks() == marked(pre.tasks(), task_id, StateView::Exited(code))
            &&& post.ready() == pre.ready()
            &&& post.waiting() == pre.waiting()
        },
        Err(message) => {
            &&& post.tasks() == marked(pre.tasks(), task_id, StateView::Failed(message))
            &&& post.ready() == pre.ready()
            &&& post.waiting() == pre.waiting()
        },
    }
}

/// A task is in flight when it is known and sits in neither queue: it was
/// handed out and nothing has completed it yet.
pub open spec fn in_flight(s: Scheduler, task_id: u64) -> bool {
    &&& s.tasks().dom().contains(task_id)
    &&& !s.ready().contains(task_id)
    &&& !s.waiting().dom().contains(task_id)
}

/// The outcome a run is completed with: a sleep that would end past the last
/// tick of the clock fails the task instead.
pub open spec fn settled(tick: u64, o: Result<PollView, Seq<char>>) -> Result<PollView, Seq<char>> {
    match o {
        Ok(PollView::Waiting(BlockView::Sleep(d))) => if tick + (if d > 1 {
            d as int
        } else {
            1
        }) > u64::MAX {
            Err("sleep reaches past the end of the clock"@)
        } else {
            o
        },
        _ => o,
    }
}

pub struct Scheduler {
    mode: SchedulingMode,
    tasks: IdMap<TaskControlBlock>,
    ready_queue: Vec<TaskId>,
    waiting_queue: IdMap<WaitState>,
    clock_tick: u64,
}

proof fn lemma_tcb_insert(m: Map<u64, TaskControlBlock>, k: u64, t: TaskControlBlock)
    ensures
        m.insert(k, t).map_values(|x: TaskControlBlock| x@) == m.map_values(
            |x: TaskControlBlock| x@,
        ).insert(k, t@),
{
    assert(m.insert(k, t).map_values(|x: TaskControlBlock| x@) =~= m.map_values(
        |x: TaskControlBlock| x@,
    ).insert(k, t@));
}

proof fn lemma_wait_insert(m: Map<u64, WaitState>, k: u64, w: WaitState)
    ensures
        m.insert(k, w).map_values(|x: WaitState| x@) == m.map_values(|x: WaitState| x@).insert(
            k,
            w@,
        ),
{
    assert(m.insert(k, w).map_values(|x: WaitState| x@) =~= m.map_values(
        |x: WaitState| x@,
    ).insert(k, w@));
}

proof fn lemma_wait_remove(m: Map<u64, WaitState>, k: u64)
    ensures
        m.remove(k).map_values(|x: WaitState| x@) == m.map_values(|x: WaitState| x@).remove(k),
{
    assert(m.remove(k).map_values(|x: WaitState| x@) =~= m.map_values(|x: WaitState| x@).remove(
        k,
    ));
}

impl Scheduler {
    /// The known tasks.
    pub closed spec fn tasks(&self) -> Map<u64, TcbView> {
        self.tasks@.map_values(|t: TaskControlBlock| t@)
    }

    /// The known tasks in task order.
    pub closed spec fn task_entries(&self) -> Seq<TcbView> {
        id_values(self.tasks.items()).map_values(|t: TaskControlBlock| t@)
    }

    /// The ready queue, front first.
    pub closed spec fn ready(&self) -> Seq<u64> {
        self.ready_queue@
    }

    /// The known tasks with their ids, in task order.
    pub closed spec fn task_pairs(&self) -> Seq<(u64, TcbView)> {
        self.tasks.items().map_values(|e: (u64, TaskControlBlock)| (e.0, e.1@))
    }

    /// The tasks in task order list every known task once, and so do the
    /// waiting tasks in task order.
    pub proof fn lemma_listings(&self)
        requires
            self.wf(),
        ensures
            id_listing(self.task_pairs(), self.tasks()),
            self.task_entries() == self.task_pairs().map_values(|e: (u64, TcbView)| e.1),
            id_listing(self.waiting_entries(), self.waiting()),
    {
        let f = |t: TaskControlBlock| t@;
        self.tasks.lemma_listing(f);
        assert(self.task_pairs() =~= self.tasks.items().map_values(
            |e: (u64, TaskControlBlock)| (e.0, f(e.1)),
        ));
        assert(self.tasks() =~= self.tasks@.map_values(f));
        assert(self.task_entries() =~= self.task_pairs().map_values(|e: (u64, TcbView)| e.1));
        let g = |w: WaitState| w@;
        self.waiting_queue.lemma_listing(g);
        assert(self.waiting_entries() =~= self.waiting_queue.items().map_values(
            |e: (u64, WaitState)| (e.0, g(e.1)),
        ));
        assert(self.waiting() =~= self.waiting_queue@.map_values(g));
    }

    /// The waiting tasks and what each waits for.
    pub closed spec fn waiting(&self) -> Map<u64, WaitView> {
        self.waiting_queue@.map_values(|w: WaitState| w@)
    }

    /// The waiting tasks in task order.
    pub closed spec fn waiting_entries(&self) -> Seq<(u64, WaitView)> {
        self.waiting_queue.items().map_values(|e: (u64, WaitState)| (e.0, e.1@))
    }

    pub closed spec fn clock(&self) -> u64 {
        self.clock_tick
    }

    pub closed spec fn spec_mode(&self) -> SchedulingMode {
        self.mode
    }

    /// The structural invariant: every queued task is known; the ready queue
    /// holds each task at most once and only tasks that are ready or yielded;
    /// the waiting tasks are off the ready queue and in the matching waiting
    /// state.
    pub closed spec fn wf(&self) -> bool {
        &&& self.tasks.wf()
        &&& self.waiting_queue.wf()
        &&& self.ready().no_duplicates()
        &&& forall|i: int|
            0 <= i < self.ready().len() ==> #[trigger] self.tasks().dom().contains(self.ready()[i])
        &&& forall|i: int|
            0 <= i < self.ready().len() ==> (self.tasks()[#[trigger] self.ready()[i]].state is Ready
                || self.tasks()[self.ready()[i]].state is Yielded)
        &&& forall|id: u64| #[trigger]
            self.waiting().dom().contains(id) ==> self.tasks().dom().contains(id)
                && !self.ready().contains(id) && self.tasks()[id].state == StateView::Waiting(
                self.waiting()[id],
            )
    }

    /// Every step that advances the clock and hands out a quantum can do so
    /// without overflowing a counter.
    pub open spec fn can_step(&self) -> bool {
        &&& self.clock() < u64::MAX
        &&& forall|id: u64| #[trigger]
            self.tasks().dom().contains(id) ==> self.tasks()[id].timeslices < u64::MAX
    }

    proof fn lemma_entries(&self)
        requires
            self.wf(),
        ensures
            crate::ordered::ids_increasing(self.waiting_queue.items()),
            self.waiting_entries().len() == self.waiting_queue.items().len(),
            forall|i: int|
                0 <= i < self.waiting_entries().len() ==> #[trigger] self.waiting().dom().contains(
                    self.waiting_entries()[i].0,
                ) && self.waiting()[self.waiting_entries()[i].0] == self.waiting_entries()[i].1,
    {
        self.waiting_queue.lemma_items();
        assert forall|i: int|
            0 <= i < self.waiting_entries().len() implies #[trigger] self.waiting().dom().contains(
            self.waiting_entries()[i].0,
        ) && self.waiting()[self.waiting_entries()[i].0] == self.waiting_entries()[i].1 by {
            assert(self.waiting_entries()[i] == (
                self.waiting_queue.items()[i].0,
                self.waiting_queue.items()[i].1@,
            ));
        }
    }

    pub fn new() -> (s: Self)
        ensures
            s.wf(),
            s.spec_mode() == SchedulingMode::Cooperative,
            s.tasks() == Map::<u64, TcbView>::empty(),
            s.ready() == Seq::<u64>::empty(),
            s.waiting() == Map::<u64, WaitView>::empty(),
            s.clock() == 0,
    {
        Self::new_with_mode(SchedulingMode::Cooperative)
    }

    pub fn new_with_mode(mode: SchedulingMode) -> (s: Self)
        ensures
            s.wf(),
            s.spec_mode() == mode,
            s.tasks() == Map::<u64, TcbView>::empty(),
            s.ready() == Seq::<u64>::empty(),
            s.waiting() == Map::<u64, WaitView>::empty(),
            s.clock() == 0,
    {
        let s = Scheduler {
            mode,
            tasks: IdMap::new(),
            ready_queue: Vec::new(),
            waiting_queue: IdMap::new(),
            clock_tick: 0,
        };
        proof {
            assert(s.tasks() =~= Map::<u64, TcbView>::empty());
            assert(s.waiting() =~= Map::<u64, WaitView>::empty());
        }
        s
    }

    pub fn mode(&self) -> (m: &SchedulingMode)
        ensures
            *m == self.spec_mode(),
    {
        &self.mode
    }

    /// The quantum each run is given.
    pub fn quantum_ms(&self) -> (q: u64)
        ensures
            q == mode_quantum(self.spec_mode()),
    {
        match self.mode {
            SchedulingMode::Cooperative => 0,
            SchedulingMode::Preemptive { quantum_ms } => quantum_ms,
        }
    }

    pub fn contains_task(&self, task_id: TaskId) -> (b: bool)
        requires
            self.wf(),
        ensures
            b == self.tasks().dom().contains(task_id),
    {
        self.tasks.contains_key(task_id)
    }

    pub fn ready_is_empty(&self) -> (b: bool)
        ensures
            b == (self.ready().len() == 0),
    {
        self.ready_queue.len() == 0
    }

    /// Whether the clock and every task's quantum count can still grow.
    pub fn can_advance(&self) -> (b: bool)
        requires
            self.wf(),
        ensures
            b == self.can_step(),
    {
        if self.clock_tick == u64::MAX {
            return false;
        }
        proof {
            self.tasks.lemma_items();
        }
        let mut i: usize = 0;
        while i < self.tasks.len()
            invariant
                self.wf(),
                i <= self.tasks.items().len(),
                forall|j: int| 0 <= j < i ==> #[trigger] self.tasks.items()[j].1.timeslices < u64::MAX,
            decreases self.tasks.items().len() - i,
        {
            if self.tasks.value_at(i).timeslices == u64::MAX {
                proof {
                    self.tasks.lemma_items();
                    let id = self.tasks.items()[i as int].0;
                    assert(self.tasks().dom().contains(id));
                    assert(self.tasks()[id].timeslices == u64::MAX);
                }
                return false;
            }
            i = i + 1;
        }
        proof {
            self.tasks.lemma_items();
            assert forall|id: u64| #[trigger] self.tasks().dom().contains(id) implies self.tasks()[
                id
            ].timeslices < u64::MAX by {
                assert(self.tasks@.dom().contains(id));
                let j = choose|j: int| 0 <= j < self.tasks.items().len() && self.tasks.items()[j].0 == id;
                assert(self.tasks.items()[j].1.timeslices < u64::MAX);
            }
        }
        true
    }

    /// Registers a new task at the back of the ready queue.
    pub fn spawn(&mut self, task_id: TaskId, request: &ProgramLaunchRequest) -> (id: TaskId)
        requires
            old(self).wf(),
            !old(self).tasks().dom().contains(task_id),
        ensures
            final(self).wf(),
            id == task_id,
            final(self).tasks() == old(self).tasks().insert(
                task_id,
                TcbView {
                    id: task_id,
                    name: request.name@,
                    module_location: request.module_location@,
                    state: StateView::Ready,
                    timeslices: 0,
                    wake_tick: None,
                    wait_channel: None,
                },
            ),
            final(self).ready() == old(self).ready().push(task_id),
            final(self).waiting() == old(self).waiting(),
            final(self).clock() == old(self).clock(),
            final(self).spec_mode() == old(self).spec_mode(),
    {
        let tcb = TaskControlBlock {
            id: task_id,
            name: request.name.clone(),
            module_location: request.module_location.clone(),
            state: TaskState::Ready,
            timeslices: 0,
            wake_tick: None,
            wait_channel: None,
        };
        proof {
            lemma_tcb_insert(self.tasks@, task_id, tcb);
        }
        self.tasks.insert(task_id, tcb);
        self.ready_queue.push(task_id);
        proof {
            let old_ready = old(self).ready();
            assert(!old_ready.contains(task_id));
            assert forall|i: int| 0 <= i < self.ready().len() implies #[trigger] self.tasks().dom().contains(
                self.ready()[i],
            ) by {
                if i < old_ready.len() {
                    assert(self.ready()[i] == old_ready[i]);
                }
            }
            assert forall|i: int|
                0 <= i < self.ready().len() implies (self.tasks()[#[trigger] self.ready()[i]].state is Ready
                || self.tasks()[self.ready()[i]].state is Yielded) by {
                if i < old_ready.len() {
                    assert(self.ready()[i] == old_ready[i]);
                    assert(old_ready[i] != task_id);
                }
            }
            assert(self.ready().no_duplicates()) by {
                assert forall|i: int, j: int|
                    0 <= i < j < self.ready().len() implies self.ready()[i] != self.ready()[j] by {
                    if j == old_ready.len() {
                        assert(old_ready.contains(self.ready()[i]) ==> self.ready()[i] != task_id);
                        assert(self.ready()[i] == old_ready[i]);
                    } else {
                        assert(self.ready()[i] == old_ready[i]);
                        assert(self.ready()[j] == old_ready[j]);
                    }
                }
            }
            assert forall|id: u64| #[trigger] self.waiting().dom().contains(id) implies self.tasks().dom().contains(
                id,
            ) && !self.ready().contains(id) && self.tasks()[id].state == StateView::Waiting(
                self.waiting()[id],
            ) by {
                assert(old(self).waiting().dom().contains(id));
                assert(id != task_id);
                if self.ready().contains(id) {
                    let k = choose|k: int| 0 <= k < self.ready().len() && self.ready()[k] == id;
                    assert(k < old_ready.len());
                    assert(old_ready[k] == id);
                }
            }
        }
        task_id
    }

    /// Puts task `id` in state `state`, when the task is known.
    fn mark_state(&mut self, task_id: TaskId, state: TaskState)
        requires
            old(self).tasks.wf(),
        ensures
            final(self).tasks.wf(),
            final(self).tasks() == marked(old(self).tasks(), task_id, state@),
            final(self).ready_queue == old(self).ready_queue,
            final(self).waiting_queue == old(self).waiting_queue,
            final(self).clock_tick == old(self).clock_tick,
            final(self).mode == old(self).mode,
    {
        let ghost sv = state@;
        match self.tasks.remove(task_id) {
            Some(task) => {
                let mut task = task;
                task.state = state;
                let waiting = match &task.state {
                    TaskState::Waiting(_) => true,
                    _ => false,
                };
                if !waiting {
                    task.wake_tick = None;
                    task.wait_channel = None;
                }
                proof {
                    lemma_tcb_insert(old(self).tasks@.remove(task_id), task_id, task);
                    assert(old(self).tasks@.remove(task_id).insert(task_id, task) =~= old(self).tasks@.insert(
                        task_id,
                        task,
                    ));
                    lemma_tcb_insert(old(self).tasks@, task_id, task);
                    assert(task@ == with_state(old(self).tasks()[task_id], sv));
                }
                self.tasks.insert(task_id, task);
            },
            None => {
                proof {
                    assert(self.tasks@ =~= old(self).tasks@);
                }
            },
        }
    }

    /// Hands task `id` a quantum: it runs, and counts one more time slice.
    fn mark_running(&mut self, task_id: TaskId, quantum_ms: u64)
        requires
            old(self).tasks.wf(),
            old(self).tasks().dom().contains(task_id) ==> old(self).tasks()[task_id].timeslices
                < u64::MAX,
        ensures
            final(self).tasks.wf(),
            final(self).tasks() == if old(self).tasks().dom().contains(task_id) {
                old(self).tasks().insert(task_id, running(old(self).tasks()[task_id], quantum_ms))
            } else {
                old(self).tasks()
            },
            final(self).ready_queue == old(self).ready_queue,
            final(self).waiting_queue == old(self).waiting_queue,
            final(self).clock_tick == old(self).clock_tick,
            final(self).mode == old(self).mode,
    {
        match self.tasks.remove(task_id) {
            Some(task) => {
                let mut task = task;
                proof {
                    assert(old(self).tasks()[task_id] == task@);
                }
                task.state = TaskState::Running { quantum_ms };
                task.timeslices = task.timeslices + 1;
                task.wake_tick = None;
                task.wait_channel = None;
                proof {
                    lemma_tcb_insert(old(self).tasks@.remove(task_id), task_id, task);
                    assert(old(self).tasks@.remove(task_id).insert(task_id, task) =~= old(self).tasks@.insert(
                        task_id,
                        task,
                    ));
                    lemma_tcb_insert(old(self).tasks@, task_id, task);
                }
                self.tasks.insert(task_id, task);
            },
            None => {
                proof {
                    assert(self.tasks@ =~= old(self).tasks@);
                }
            },
        }
    }

    /// Moves every task of `ids` from the wait queue to the back of the ready
    /// queue, ready again, in order.
    fn requeue_ready(&mut self, ids: &Vec<TaskId>)
        requires
            old(self).wf(),
            ids@.no_duplicates(),
            forall|i: int| 0 <= i < ids@.len() ==> #[trigger] old(self).waiting().dom().contains(ids@[i]),
        ensures
            final(self).wf(),
            final(self).tasks() == woken(old(self).tasks(), ids@),
            final(self).ready() == old(self).ready() + ids@,
            final(self).waiting() == old(self).waiting().remove_keys(ids@.to_set()),
            final(self).clock() == old(self).clock(),
            final(self).spec_mode() == old(self).spec_mode(),
            forall|id: u64|
                #![trigger final(self).tasks()[id]]
                final(self).tasks().dom().contains(id) ==> final(self).tasks()[id].timeslices
                    == old(self).tasks()[id].timeslices,
            final(self).tasks().dom() == old(self).tasks().dom(),
    {
        let mut i: usize = 0;
        while i < ids.len()
            invariant
                i <= ids@.len(),
                ids@.no_duplicates(),
                forall|k: int| 0 <= k < ids@.len() ==> #[trigger] old(self).waiting().dom().contains(ids@[k]),
                self.wf(),
                self.tasks() == woken(old(self).tasks(), ids@.take(i as int)),
                self.tasks().dom() == old(self).tasks().dom(),
                forall|id: u64|
                    #![trigger self.tasks()[id]]
                    self.tasks().dom().contains(id) ==> self.tasks()[id].timeslices == old(
                        self,
                    ).tasks()[id].timeslices,
                self.ready() == old(self).ready() + ids@.take(i as int),
                self.waiting() == old(self).waiting().remove_keys(ids@.take(i as int).to_set()),
                self.clock() == old(self).clock(),
                self.spec_mode() == old(self).spec_mode(),
            decreases ids@.len() - i,
        {
            let id = ids[i];
            let ghost before = *self;
            proof {
                assert(ids@.take(i + 1).drop_last() =~= ids@.take(i as int));
                assert(ids@.take(i + 1).last() == id);
                assert(!ids@.take(i as int).contains(id)) by {
                    if ids@.take(i as int).contains(id) {
                        let k = choose|k: int| 0 <= k < i && ids@.take(i as int)[k] == id;
                        assert(ids@[k] == ids@[i as int]);
                    }
                }
                assert(self.waiting().dom().contains(id));
                lemma_wait_remove(self.waiting_queue@, id);
            }
            self.waiting_queue.remove(id);
            self.mark_state(id, TaskState::Ready);
            self.ready_queue.push(id);
            proof {
                let t = ids@.take(i + 1);
                assert(t.to_set() =~= ids@.take(i as int).to_set().insert(id));
                assert(self.waiting() =~= old(self).waiting().remove_keys(t.to_set()));
                assert(self.ready() =~= old(self).ready() + t);
                assert(self.tasks() == woken(old(self).tasks(), t));
                // The invariant survives the move.
                assert(before.waiting().dom().contains(id));
                assert(!before.ready().contains(id));
                assert(self.ready() == before.ready().push(id));
                assert(self.waiting() == before.waiting().remove(id));
                assert(self.tasks() == before.tasks().insert(
                    id,
                    with_state(before.tasks()[id], StateView::Ready),
                ));
                assert(self.ready().no_duplicates()) by {
                    assert forall|a: int, b: int|
                        0 <= a < b < self.ready().len() implies self.ready()[a] != self.ready()[b] by {
                        if b == before.ready().len() {
                            assert(self.ready()[a] == before.ready()[a]);
                        } else {
                            assert(self.ready()[a] == before.ready()[a]);
                            assert(self.ready()[b] == before.ready()[b]);
                        }
                    }
                }
                assert forall|a: int| 0 <= a < self.ready().len() implies #[trigger] self.tasks().dom().contains(
                    self.ready()[a],
                ) by {
                    if a < before.ready().len() {
                        assert(self.ready()[a] == before.ready()[a]);
                    }
                }
                assert forall|a: int|
                    0 <= a < self.ready().len() implies (self.tasks()[#[trigger] self.ready()[a]].state is Ready
                    || self.tasks()[self.ready()[a]].state is Yielded) by {
                    if a < before.ready().len() {
                        assert(self.ready()[a] == before.ready()[a]);
                    }
                }
                assert forall|x: u64| #[trigger] self.waiting().dom().contains(x) implies self.tasks().dom().contains(
                    x,
                ) && !self.ready().contains(x) && self.tasks()[x].state == StateView::Waiting(
                    self.waiting()[x],
                ) by {
                    assert(before.waiting().dom().contains(x));
                    assert(x != id);
                    if self.ready().contains(x) {
                        let k = choose|k: int| 0 <= k < self.ready().len() && self.ready()[k] == x;
                        assert(k < before.ready().len());
                        assert(before.ready()[k] == x);
                    }
                }
            }
            i = i + 1;
        }
        proof {
            assert(ids@.take(ids@.len() as int) =~= ids@);
        }
    }

    /// The ids of the sleepers due at `tick`, in task order.
    fn collect_due(&self, tick: u64) -> (v: Vec<TaskId>)
        requires
            self.wf(),
        ensures
            v@ == due(self.waiting_entries(), tick),
    {
        let mut out: Vec<TaskId> = Vec::new();
        let mut i: usize = 0;
        let ghost s = self.waiting_entries();
        while i < self.waiting_queue.len()
            invariant
                i <= self.waiting_queue.items().len(),
                s == self.waiting_entries(),
                s.len() == self.waiting_queue.items().len(),
                out@ == due(s.take(i as int), tick),
            decreases self.waiting_queue.items().len() - i,
        {
            let id = self.waiting_queue.key_at(i);
            let w = self.waiting_queue.value_at(i);
            proof {
                assert(s.take(i + 1).drop_last() =~= s.take(i as int));
                assert(s.take(i + 1).last() == s[i as int]);
                assert(s[i as int] == (id, w@));
            }
            match w {
                WaitState::Sleeping { wake_at_tick } => {
                    if *wake_at_tick <= tick {
                        out.push(id);
                    }
                },
                WaitState::Io { .. } => {},
            }
            i = i + 1;
        }
        proof {
            assert(s.take(s.len() as int) =~= s);
        }
        out
    }

    /// The ids of the tasks waiting on `channel`, in task order.
    fn collect_io_waiters(&self, channel: &str) -> (v: Vec<TaskId>)
        requires
            self.wf(),
        ensures
            v@ == io_waiters(self.waiting_entries(), channel@),
    {
        let mut out: Vec<TaskId> = Vec::new();
        let mut i: usize = 0;
        let ghost s = self.waiting_entries();
        while i < self.waiting_queue.len()
            invariant
                i <= self.waiting_queue.items().len(),
                s == self.waiting_entries(),
                s.len() == self.waiting_queue.items().len(),
                out@ == io_waiters(s.take(i as int), channel@),
            decreases self.waiting_queue.items().len() - i,
        {
            let id = self.waiting_queue.key_at(i);
            let w = self.waiting_queue.value_at(i);
            proof {
                assert(s.take(i + 1).drop_last() =~= s.take(i as int));
                assert(s.take(i + 1).last() == s[i as int]);
                assert(s[i as int] == (id, w@));
            }
            match w {
                WaitState::Io { channel: c } => {
                    if text_eq(c.as_str(), channel) {
                        out.push(id);
                    }
                },
                WaitState::Sleeping { .. } => {},
            }
            i = i + 1;
        }
        proof {
            assert(s.take(s.len() as int) =~= s);
        }
        out
    }
}


impl Scheduler {
    proof fn lemma_picked_waiting(&self, ids: Seq<u64>)
        requires
            self.wf(),
            picked_from(ids, self.waiting_entries()),
        ensures
            ids.no_duplicates(),
            forall|i: int| 0 <= i < ids.len() ==> #[trigger] self.waiting().dom().contains(ids[i]),
    {
        self.lemma_entries();
        lemma_increasing_no_duplicates(ids);
        assert forall|i: int| 0 <= i < ids.len() implies #[trigger] self.waiting().dom().contains(ids[i]) by {
            let j = choose|j: int| 0 <= j < self.waiting_entries().len() && self.waiting_entries()[j].0 == ids[i];
            assert(self.waiting().dom().contains(self.waiting_entries()[j].0));
        }
    }

    proof fn lemma_entries_increasing(&self)
        requires
            self.wf(),
        ensures
            keys_increasing(self.waiting_entries()),
    {
        self.lemma_entries();
        assert forall|i: int, j: int| 0 <= i < j < self.waiting_entries().len() implies self.waiting_entries()[i].0
            < self.waiting_entries()[j].0 by {
            assert(self.waiting_entries()[i].0 == self.waiting_queue.items()[i].0);
            assert(self.waiting_entries()[j].0 == self.waiting_queue.items()[j].0);
        }
    }

    /// Moves the sleepers due at `tick` back to the ready queue.
    fn wake_sleeping_tasks(&mut self, tick: u64)
        requires
            old(self).wf(),
        ensures
            final(self).wf(),
            final(self).tasks() == woken(old(self).tasks(), due(old(self).waiting_entries(), tick)),
            final(self).ready() == old(self).ready() + due(old(self).waiting_entries(), tick),
            final(self).waiting() == old(self).waiting().remove_keys(
                due(old(self).waiting_entries(), tick).to_set(),
            ),
            final(self).clock() == old(self).clock(),
            final(self).spec_mode() == old(self).spec_mode(),
            final(self).tasks().dom() == old(self).tasks().dom(),
            forall|id: u64|
                #![trigger final(self).tasks()[id]]
                final(self).tasks().dom().contains(id) ==> final(self).tasks()[id].timeslices
                    == old(self).tasks()[id].timeslices,
    {
        let ids = self.collect_due(tick);
        proof {
            self.lemma_entries_increasing();
            lemma_due_picked(self.waiting_entries(), tick);
            self.lemma_picked_waiting(ids@);
        }
        self.requeue_ready(&ids);
    }

    /// Wakes the tasks waiting on an I/O channel.
    pub fn notify_io(&mut self, channel: &str)
        requires
            old(self).wf(),
        ensures
            final(self).wf(),
            final(self).tasks() == woken(
                old(self).tasks(),
                io_waiters(old(self).waiting_entries(), channel@),
            ),
            final(self).ready() == old(self).ready() + io_waiters(old(self).waiting_entries(), channel@),
            final(self).waiting() == old(self).waiting().remove_keys(
                io_waiters(old(self).waiting_entries(), channel@).to_set(),
            ),
            final(self).clock() == old(self).clock(),
            final(self).spec_mode() == old(self).spec_mode(),
    {
        let ids = self.collect_io_waiters(channel);
        proof {
            self.lemma_entries_increasing();
            lemma_io_waiters_picked(self.waiting_entries(), channel@);
            self.lemma_picked_waiting(ids@);
        }
        self.requeue_ready(&ids);
    }

    /// Takes the task at `pos` of the ready queue off it and hands it a quantum.
    fn dispatch_at(&mut self, pos: usize, tick: u64) -> (d: Dispatch)
        requires
            old(self).wf(),
            pos < old(self).ready().len(),
            forall|id: u64| #[trigger]
                old(self).tasks().dom().contains(id) ==> old(self).tasks()[id].timeslices < u64::MAX,
        ensures
            final(self).wf(),
            d == (Dispatch {
                task_id: old(self).ready()[pos as int],
                quantum_ms: mode_quantum(old(self).spec_mode()),
                tick,
            }),
            final(self).ready() == old(self).ready().remove(pos as int),
            final(self).tasks() == old(self).tasks().insert(
                d.task_id,
                running(old(self).tasks()[d.task_id], d.quantum_ms),
            ),
            final(self).waiting() == old(self).waiting(),
            final(self).clock() == old(self).clock(),
            final(self).spec_mode() == old(self).spec_mode(),
    {
        let ghost before = *self;
        let task_id = self.ready_queue.remove(pos);
        let quantum_ms = self.quantum_ms();
        proof {
            assert(before.tasks().dom().contains(task_id));
        }
        self.mark_running(task_id, quantum_ms);
        proof {
            let r = before.ready();
            assert(self.ready() == r.remove(pos as int));
            assert forall|a: int, b: int| 0 <= a < b < self.ready().len() implies self.ready()[a]
                != self.ready()[b] by {
                let a2 = if a < pos { a } else { a + 1 };
                let b2 = if b < pos { b } else { b + 1 };
                assert(self.ready()[a] == r[a2]);
                assert(self.ready()[b] == r[b2]);
            }
            assert forall|a: int| 0 <= a < self.ready().len() implies self.ready()[a] != task_id by {
                let a2 = if a < pos { a } else { a + 1 };
                assert(self.ready()[a] == r[a2]);
                assert(a2 != pos);
            }
            assert forall|a: int| 0 <= a < self.ready().len() implies #[trigger] self.tasks().dom().contains(
                self.ready()[a],
            ) by {
                let a2 = if a < pos { a } else { a + 1 };
                assert(self.ready()[a] == r[a2]);
            }
            assert forall|a: int|
                0 <= a < self.ready().len() implies (self.tasks()[#[trigger] self.ready()[a]].state is Ready
                || self.tasks()[self.ready()[a]].state is Yielded) by {
                let a2 = if a < pos { a } else { a + 1 };
                assert(self.ready()[a] == r[a2]);
                assert(self.ready()[a] != task_id);
            }
            assert forall|x: u64| #[trigger] self.waiting().dom().contains(x) implies self.tasks().dom().contains(
                x,
            ) && !self.ready().contains(x) && self.tasks()[x].state == StateView::Waiting(
                self.waiting()[x],
            ) by {
                assert(before.waiting().dom().contains(x));
                assert(!r.contains(x));
                assert(x != task_id) by {
                    assert(r[pos as int] == task_id);
                }
                if self.ready().contains(x) {
                    let k = choose|k: int| 0 <= k < self.ready().len() && self.ready()[k] == x;
                    let k2 = if k < pos { k } else { k + 1 };
                    assert(r[k2] == x);
                }
            }
        }
        Dispatch { task_id, quantum_ms, tick }
    }

    /// Advances the clock, wakes the sleepers that are due, and hands the task
    /// at the front of the ready queue a quantum.
    pub fn begin_tick(&mut self) -> (d: Option<Dispatch>)
        requires
            old(self).wf(),
            old(self).can_step(),
        ensures
            final(self).wf(),
            final(self).clock() == old(self).clock() + 1,
            final(self).spec_mode() == old(self).spec_mode(),
            ({
                let c = (old(self).clock() + 1) as u64;
                let ids = due(old(self).waiting_entries(), c);
                let t1 = woken(old(self).tasks(), ids);
                let r1 = old(self).ready() + ids;
                &&& final(self).waiting() == old(self).waiting().remove_keys(ids.to_set())
                &&& if r1.len() == 0 {
                    d is None && final(self).tasks() == t1 && final(self).ready() == r1
                } else {
                    &&& d == Some(
                        Dispatch {
                            task_id: r1[0],
                            quantum_ms: mode_quantum(old(self).spec_mode()),
                            tick: c,
                        },
                    )
                    &&& final(self).ready() == r1.drop_first()
                    &&& final(self).tasks() == t1.insert(
                        r1[0],
                        running(t1[r1[0]], mode_quantum(old(self).spec_mode())),
                    )
                }
            }),
    {
        self.clock_tick = self.clock_tick + 1;
        let tick = self.clock_tick;
        self.wake_sleeping_tasks(tick);
        if self.ready_queue.len() == 0 {
            return None;
        }
        let d = self.dispatch_at(0, tick);
        proof {
            assert(old(self).ready().remove(0) == old(self).ready().drop_first()) by {
                assert((old(self).ready() + due(old(self).waiting_entries(), tick)).remove(0) =~= (old(
                    self,
                ).ready() + due(old(self).waiting_entries(), tick)).drop_first());
            }
        }
        Some(d)
    }

    /// Advances the clock, wakes the sleepers that are due, and hands task
    /// `task_id` a quantum if it is on the ready queue.
    pub fn begin_task_once(&mut self, task_id: TaskId) -> (d: Option<Dispatch>)
        requires
            old(self).wf(),
            old(self).can_step(),
        ensures
            final(self).wf(),
            final(self).clock() == old(self).clock() + 1,
            final(self).spec_mode() == old(self).spec_mode(),
            ({
                let c = (old(self).clock() + 1) as u64;
                let ids = due(old(self).waiting_entries(), c);
                let t1 = woken(old(self).tasks(), ids);
                let r1 = old(self).ready() + ids;
                &&& final(self).waiting() == old(self).waiting().remove_keys(ids.to_set())
                &&& if !r1.contains(task_id) {
                    d is None && final(self).tasks() == t1 && final(self).ready() == r1
                } else {
                    &&& d == Some(
                        Dispatch {
                            task_id,
                            quantum_ms: mode_quantum(old(self).spec_mode()),
                            tick: c,
                        },
                    )
                    &&& final(self).ready() == r1.remove(r1.index_of(task_id))
                    &&& final(self).tasks() == t1.insert(
                        task_id,
                        running(t1[task_id], mode_quantum(old(self).spec_mode())),
                    )
                }
            }),
    {
        self.clock_tick = self.clock_tick + 1;
        let tick = self.clock_tick;
        self.wake_sleeping_tasks(tick);
        let mut pos: usize = 0;
        while pos < self.ready_queue.len() && self.ready_queue[pos] != task_id
            invariant
                pos <= self.ready_queue@.len(),
                forall|k: int| 0 <= k < pos ==> self.ready_queue@[k] != task_id,
            decreases self.ready_queue@.len() - pos,
        {
            pos = pos + 1;
        }
        if pos == self.ready_queue.len() {
            proof {
                assert(!self.ready().contains(task_id));
            }
            return None;
        }
        proof {
            let r = self.ready();
            assert(r.contains(task_id));
            assert(r.index_of(task_id) == pos as int) by {
                let k = r.index_of(task_id);
                assert(r[k] == task_id);
                assert(r.no_duplicates());
                if k != pos as int {
                    assert(r[pos as int] == task_id);
                }
            }
        }
        let d = self.dispatch_at(pos, tick);
        Some(d)
    }

    /// Records how a dispatched task's quantum ended: a ready or yielded task
    /// goes to the back of the ready queue, a blocked one to the wait queue
    /// (a sleep of `d` ticks wakes at `tick + max(d, 1)`), and an exited or
    /// failed one leaves both queues.
    pub fn complete_dispatch(&mut self, task_id: TaskId, tick: u64, outcome: Result<RuntimePoll, String>)
        requires
            old(self).wf(),
            old(self).tasks().dom().contains(task_id),
            !old(self).ready().contains(task_id),
            !old(self).waiting().dom().contains(task_id),
            outcome_view(outcome) matches Ok(PollView::Waiting(BlockView::Sleep(d))) ==> tick + (if d > 1 {
                d as int
            } else {
                1
            }) <= u64::MAX,
        ensures
            final(self).wf(),
            final(self).clock() == old(self).clock(),
            final(self).spec_mode() == old(self).spec_mode(),
            match outcome_view(outcome) {
                Ok(PollView::Ready) | Ok(PollView::Yielded) => {
                    &&& final(self).tasks() == marked(old(self).tasks(), task_id, StateView::Yielded)
                    &&& final(self).ready() == old(self).ready().push(task_id)
                    &&& final(self).waiting() == old(self).waiting()
                },
                Ok(PollView::Waiting(reason)) => {
                    &&& final(self).waiting() == old(self).waiting().insert(task_id, wait_for(reason, tick))
                    &&& final(self).tasks() == old(self).tasks().insert(
                        task_id,
                        waiting_tcb(old(self).tasks()[task_id], wait_for(reason, tick)),
                    )
                    &&& final(self).ready() == old(self).ready()
                },
                Ok(PollView::Exited(code)) => {
                    &&& final(self).tasks() == marked(old(self).tasks(), task_id, StateView::Exited(code))
                    &&& final(self).ready() == old(self).ready()
                    &&& final(self).waiting() == old(self).waiting()
                },
                Err(message) => {
                    &&& final(self).tasks() == marked(old(self).tasks(), task_id, StateView::Failed(message))
                    &&& final(self).ready() == old(self).ready()
                    &&& final(self).waiting() == old(self).waiting()
                },
            },
    {
        let ghost before = *self;
        match outcome {
            Ok(RuntimePoll::Ready) | Ok(RuntimePoll::Yielded) => {
                self.mark_state(task_id, TaskState::Yielded);
                self.ready_queue.push(task_id);
                proof {
                    let r = before.ready();
                    assert(self.ready() == r.push(task_id));
                    assert forall|a: int, b: int| 0 <= a < b < self.ready().len() implies self.ready()[a]
                        != self.ready()[b] by {
                        if b == r.len() {
                            assert(self.ready()[a] == r[a]);
                        } else {
                            assert(self.ready()[a] == r[a]);
                            assert(self.ready()[b] == r[b]);
                        }
                    }
                    assert forall|a: int| 0 <= a < self.ready().len() implies #[trigger] self.tasks().dom().contains(
                        self.ready()[a],
                    ) by {
                        if a < r.len() {
                            assert(self.ready()[a] == r[a]);
                        }
                    }
                    assert forall|a: int|
                        0 <= a < self.ready().len() implies (self.tasks()[#[trigger] self.ready()[a]].state is Ready
                        || self.tasks()[self.ready()[a]].state is Yielded) by {
                        if a < r.len() {
                            assert(self.ready()[a] == r[a]);
                            assert(r[a] != task_id);
                        }
                    }
                    assert forall|x: u64| #[trigger] self.waiting().dom().contains(x) implies self.tasks().dom().contains(
                        x,
                    ) && !self.ready().contains(x) && self.tasks()[x].state == StateView::Waiting(
                        self.waiting()[x],
                    ) by {
                        assert(x != task_id);
                        if self.ready().contains(x) {
                            let k = choose|k: int| 0 <= k < self.ready().len() && self.ready()[k] == x;
                            assert(k < r.len());
                            assert(r[k] == x);
                        }
                    }
                }
            },
            Ok(RuntimePoll::Waiting(reason)) => {
                let ghost rv = reason@;
                let wait_state = match reason {
                    RuntimeBlockReason::Sleep { duration_ms } => {
                        let d = if duration_ms > 1 {
                            duration_ms
                        } else {
                            1
                        };
                        WaitState::Sleeping { wake_at_tick: tick + d }
                    },
                    RuntimeBlockReason::Io { channel } => WaitState::Io { channel },
                };
                proof {
                    assert(wait_state@ == wait_for(rv, tick));
                    lemma_wait_insert(self.waiting_queue@, task_id, wait_state);
                }
                self.waiting_queue.insert(task_id, wait_state.duplicate());
                self.mark_waiting(task_id, wait_state);
                proof {
                    let r = before.ready();
                    assert forall|a: int|
                        0 <= a < self.ready().len() implies (self.tasks()[#[trigger] self.ready()[a]].state is Ready
                        || self.tasks()[self.ready()[a]].state is Yielded) by {
                        assert(r[a] != task_id);
                    }
                    assert forall|x: u64| #[trigger] self.waiting().dom().contains(x) implies self.tasks().dom().contains(
                        x,
                    ) && !self.ready().contains(x) && self.tasks()[x].state == StateView::Waiting(
                        self.waiting()[x],
                    ) by {
                        if x != task_id {
                            assert(before.waiting().dom().contains(x));
                        }
                    }
                }
            },
            Ok(RuntimePoll::Exited(code)) => {
                self.mark_state(task_id, TaskState::Exited(code));
                proof {
                    lemma_wait_remove(self.waiting_queue@, task_id);
                }
                self.waiting_queue.remove(task_id);
                proof {
                    assert(self.waiting() =~= before.waiting());
                    let r = before.ready();
                    assert forall|a: int|
                        0 <= a < self.ready().len() implies (self.tasks()[#[trigger] self.ready()[a]].state is Ready
                        || self.tasks()[self.ready()[a]].state is Yielded) by {
                        assert(r[a] != task_id);
                    }
                    assert forall|x: u64| #[trigger] self.waiting().dom().contains(x) implies self.tasks().dom().contains(
                        x,
                    ) && !self.ready().contains(x) && self.tasks()[x].state == StateView::Waiting(
                        self.waiting()[x],
                    ) by {
                        assert(x != task_id);
                    }
                }
            },
            Err(message) => {
                let ghost mv = message@;
                self.mark_state(task_id, TaskState::Failed(message));
                proof {
                    lemma_wait_remove(self.waiting_queue@, task_id);
                }
                self.waiting_queue.remove(task_id);
                proof {
                    assert(self.waiting() =~= before.waiting());
                    let r = before.ready();
                    assert forall|a: int|
                        0 <= a < self.ready().len() implies (self.tasks()[#[trigger] self.ready()[a]].state is Ready
                        || self.tasks()[self.ready()[a]].state is Yielded) by {
                        assert(r[a] != task_id);
                    }
                    assert forall|x: u64| #[trigger] self.waiting().dom().contains(x) implies self.tasks().dom().contains(
                        x,
                    ) && !self.ready().contains(x) && self.tasks()[x].state == StateView::Waiting(
                        self.waiting()[x],
                    ) by {
                        assert(x != task_id);
                    }
                }
            },
        }
    }

    /// Puts a known task in the waiting state `w`.
    /// Completes the run of a task with what the runtime answered, after
    /// checking that the task is still in flight; a sleep that would end past
    /// the last tick of the clock fails the task. Answers whether the task was
    /// in flight; when it was not, nothing changes.
    pub fn finish_dispatch(&mut self, task_id: TaskId, tick: u64, outcome: Result<RuntimePoll, String>) -> (done: bool)
        requires
            old(self).wf(),
        ensures
            final(self).wf(),
            done == in_flight(*old(self), task_id),
            !done ==> *final(self) == *old(self),
            done ==> dispatch_completed(
                *old(self),
                *final(self),
                task_id,
                tick,
                settled(tick, outcome_view(outcome)),
            ),
    {
        if !self.tasks.contains_key(task_id) || self.waiting_queue.contains_key(task_id) {
            return false;
        }
        let mut i: usize = 0;
        while i < self.ready_queue.len()
            invariant
                i <= self.ready().len(),
                *self == *old(self),
                self.wf(),
                forall|j: int| 0 <= j < i ==> self.ready()[j] != task_id,
            decreases self.ready().len() - i,
        {
            if self.ready_queue[i] == task_id {
                proof {
                    assert(self.ready()[i as int] == task_id);
                }
                return false;
            }
            i = i + 1;
        }
        proof {
            assert(!self.ready().contains(task_id));
        }
        let outcome = match outcome {
            Ok(RuntimePoll::Waiting(RuntimeBlockReason::Sleep { duration_ms })) => {
                let d: u64 = if duration_ms > 1 {
                    duration_ms
                } else {
                    1
                };
                if tick > u64::MAX - d {
                    Err("sleep reaches past the end of the clock".to_string())
                } else {
                    Ok(RuntimePoll::Waiting(RuntimeBlockReason::Sleep { duration_ms }))
                }
            },
            other => other,
        };
        self.complete_dispatch(task_id, tick, outcome);
        true
    }

    fn mark_waiting(&mut self, task_id: TaskId, w: WaitState)
        requires
            old(self).tasks.wf(),
        ensures
            final(self).tasks.wf(),
            final(self).tasks() == if old(self).tasks().dom().contains(task_id) {
                old(self).tasks().insert(task_id, waiting_tcb(old(self).tasks()[task_id], w@))
            } else {
                old(self).tasks()
            },
            final(self).ready_queue == old(self).ready_queue,
            final(self).waiting_queue == old(self).waiting_queue,
            final(self).clock_tick == old(self).clock_tick,
            final(self).mode == old(self).mode,
    {
        match self.tasks.remove(task_id) {
            Some(task) => {
                let mut task = task;
                proof {
                    assert(old(self).tasks()[task_id] == task@);
                }
                match &w {
                    WaitState::Sleeping { wake_at_tick } => {
                        task.wake_tick = Some(*wake_at_tick);
                        task.wait_channel = None;
                    },
                    WaitState::Io { channel } => {
                        task.wake_tick = None;
                        task.wait_channel = Some(channel.clone());
                    },
                }
                task.state = TaskState::Waiting(w);
                proof {
                    lemma_tcb_insert(old(self).tasks@.remove(task_id), task_id, task);
                    assert(old(self).tasks@.remove(task_id).insert(task_id, task) =~= old(self).tasks@.insert(
                        task_id,
                        task,
                    ));
                    lemma_tcb_insert(old(self).tasks@, task_id, task);
                }
                self.tasks.insert(task_id, task);
            },
            None => {
                proof {
                    assert(self.tasks@ =~= old(self).tasks@);
                }
            },
        }
    }

    /// Stops a task for good: it leaves both queues and is marked failed.
    /// Tells whether the task was known.
    pub fn kill(&mut self, task_id: TaskId) -> (b: bool)
        requires
            old(self).wf(),
        ensures
            final(self).wf(),
            b == old(self).tasks().dom().contains(task_id),
            final(self).clock() == old(self).clock(),
            final(self).spec_mode() == old(self).spec_mode(),
            if b {
                &&& final(self).tasks() == marked(
                    old(self).tasks(),
                    task_id,
                    StateView::Failed("killed by shell"@),
                )
                &&& final(self).waiting() == old(self).waiting().remove(task_id)
                &&& final(self).ready() == without(old(self).ready(), task_id)
            } else {
                &&& final(self).tasks() == old(self).tasks()
                &&& final(self).waiting() == old(self).waiting()
                &&& final(self).ready() == old(self).ready()
            },
    {
        if !self.tasks.contains_key(task_id) {
            return false;
        }
        let ghost before = *self;
        proof {
            lemma_wait_remove(self.waiting_queue@, task_id);
        }
        self.waiting_queue.remove(task_id);
        let mut kept: Vec<TaskId> = Vec::new();
        let mut i: usize = 0;
        while i < self.ready_queue.len()
            invariant
                i <= self.ready_queue@.len(),
                self.ready_queue@ == before.ready(),
                kept@ == without(before.ready().take(i as int), task_id),
            decreases self.ready_queue@.len() - i,
        {
            let x = self.ready_queue[i];
            proof {
                assert(before.ready().take(i + 1).drop_last() =~= before.ready().take(i as int));
            }
            if x != task_id {
                kept.push(x);
            }
            i = i + 1;
        }
        proof {
            assert(before.ready().take(before.ready().len() as int) =~= before.ready());
        }
        self.ready_queue = kept;
        self.mark_state(task_id, TaskState::Failed("killed by shell".to_string()));
        proof {
            let r = before.ready();
            let f = without(r, task_id);
            assert(self.ready() == f);
            lemma_without(r, task_id);
            assert forall|a: int| 0 <= a < self.ready().len() implies #[trigger] self.tasks().dom().contains(
                self.ready()[a],
            ) by {
                assert(r.contains(f[a]));
            }
            assert forall|a: int|
                0 <= a < self.ready().len() implies (self.tasks()[#[trigger] self.ready()[a]].state is Ready
                || self.tasks()[self.ready()[a]].state is Yielded) by {
                assert(r.contains(f[a]));
                let k = choose|k: int| 0 <= k < r.len() && r[k] == f[a];
                assert(before.tasks()[r[k]].state is Ready || before.tasks()[r[k]].state is Yielded);
            }
            assert forall|x: u64| #[trigger] self.waiting().dom().contains(x) implies self.tasks().dom().contains(
                x,
            ) && !self.ready().contains(x) && self.tasks()[x].state == StateView::Waiting(
                self.waiting()[x],
            ) by {
                assert(x != task_id);
                if self.ready().contains(x) {
                    let k = choose|k: int| 0 <= k < f.len() && f[k] == x;
                    assert(r.contains(f[k]));
                }
            }
        }
        true
    }

    /// Copies of all task records, in task order.
    pub fn list_tasks(&self) -> (v: Vec<TaskControlBlock>)
        requires
            self.wf(),
        ensures
            v@.map_values(|t: TaskControlBlock| t@) == self.task_entries(),
    {
        let mut out: Vec<TaskControlBlock> = Vec::new();
        let mut i: usize = 0;
        let ghost s = self.task_entries();
        while i < self.tasks.len()
            invariant
                i <= self.tasks.items().len(),
                s == self.task_entries(),
                s.len() == self.tasks.items().len(),
                out@.map_values(|t: TaskControlBlock| t@) == s.take(i as int),
            decreases self.tasks.items().len() - i,
        {
            let t = self.tasks.value_at(i);
            let ghost before = out@;
            let copy = t.duplicate();
            out.push(copy);
            proof {
                assert(s[i as int] == t@);
                assert(out@.map_values(|t: TaskControlBlock| t@) =~= before.map_values(
                    |t: TaskControlBlock| t@,
                ).push(t@));
                assert(s.take(i + 1) =~= s.take(i as int).push(s[i as int]));
            }
            i = i + 1;
        }
        proof {
            assert(s.take(s.len() as int) =~= s);
        }
        out
    }

    /// Whether some task has neither exited nor failed.
    pub fn has_active_tasks(&self) -> (b: bool)
        requires
            self.wf(),
        ensures
            b == exists|id: u64| #[trigger]
                self.tasks().dom().contains(id) && !is_finished(self.tasks()[id].state),
            b == exists|id: u64| #[trigger]
                self.tasks().dom().contains(id) && !(self.tasks()[id].state is Exited)
                    && !(self.tasks()[id].state is Failed),
            (exists|id: u64| #[trigger] self.waiting().dom().contains(id)) ==> b,
    {
        proof {
            self.tasks.lemma_items();
        }
        let mut i: usize = 0;
        while i < self.tasks.len()
            invariant
                self.wf(),
                i <= self.tasks.items().len(),
                forall|j: int| 0 <= j < i ==> is_finished(#[trigger] self.tasks.items()[j].1.state@),
            decreases self.tasks.items().len() - i,
        {
            let finished = match &self.tasks.value_at(i).state {
                TaskState::Exited(_) | TaskState::Failed(_) => true,
                _ => false,
            };
            if !finished {
                proof {
                    self.tasks.lemma_items();
                    let id = self.tasks.items()[i as int].0;
                    assert(self.tasks().dom().contains(id));
                    assert(self.tasks()[id] == self.tasks.items()[i as int].1@);
                }
                return true;
            }
            i = i + 1;
        }
        proof {
            self.tasks.lemma_items();
            assert forall|id: u64| #[trigger] self.tasks().dom().contains(id) implies is_finished(
                self.tasks()[id].state,
            ) by {
                assert(self.tasks@.dom().contains(id));
                let j = choose|j: int| 0 <= j < self.tasks.items().len() && self.tasks.items()[j].0 == id;
                assert(self.tasks()[id] == self.tasks.items()[j].1@);
            }
        }
        false
    }
}

/// A task taken out of a queue is no longer in it, and every other task
/// keeps its place.
pub proof fn law_without_removes_only_that_task(s: Seq<u64>, x: u64)
    ensures
        !without(s, x).contains(x),
        forall|y: u64| y != x ==> (s.contains(y) <==> #[trigger] without(s, x).contains(y)),
    decreases s.len(),
{
    if s.len() > 0 {
        law_without_removes_only_that_task(s.drop_last(), x);
        assert forall|y: u64| y != x implies (s.contains(y) <==> #[trigger] without(s, x).contains(y)) by {
            let t = s.drop_last();
            let rest = without(t, x);
            assert(without(s, x) == if s.last() != x {
                rest.push(s.last())
            } else {
                rest
            });
            if s.contains(y) {
                let i = choose|i: int| 0 <= i < s.len() && s[i] == y;
                if i < s.len() - 1 {
                    assert(t[i] == y);
                    assert(t.contains(y));
                    assert(rest.contains(y));
                    let k = choose|k: int| 0 <= k < rest.len() && rest[k] == y;
                    assert(without(s, x)[k] == y);
                } else {
                    assert(without(s, x)[rest.len() as int] == y);
                }
            }
            if without(s, x).contains(y) {
                let j = choose|j: int| 0 <= j < without(s, x).len() && without(s, x)[j] == y;
                if j < rest.len() {
                    assert(rest[j] == y);
                    assert(rest.contains(y));
                    assert(t.contains(y));
                    let k = choose|k: int| 0 <= k < t.len() && t[k] == y;
                    assert(s[k] == y);
                } else {
                    assert(s[s.len() - 1] == y);
                }
            }
        }
        if without(s, x).contains(x) {
            let j = choose|j: int| 0 <= j < without(s, x).len() && without(s, x)[j] == x;
            let rest = without(s.drop_last(), x);
            if j < rest.len() {
                assert(rest[j] == x);
            }
        }
    }
}

/// What every operation of the scheduler keeps: each queued task is known,
/// the ready queue holds each task at most once and only tasks that are
/// ready or yielded, and a waiting task is off the ready queue and in the
/// waiting state that it waits in.
pub proof fn law_queues_are_consistent(s: &Scheduler)
    requires
        s.wf(),
    ensures
        s.ready().no_duplicates(),
        forall|i: int|
            0 <= i < s.ready().len() ==> #[trigger] s.tasks().dom().contains(s.ready()[i]),
        forall|i: int|
            0 <= i < s.ready().len() ==> (s.tasks()[#[trigger] s.ready()[i]].state is Ready
                || s.tasks()[s.ready()[i]].state is Yielded),
        forall|id: u64| #[trigger]
            s.waiting().dom().contains(id) ==> s.tasks().dom().contains(id) && !s.ready().contains(id)
                && s.tasks()[id].state == StateView::Waiting(s.waiting()[id]),
{
}

/// A task that has neither exited nor failed keeps the scheduler active; in
/// particular a task on the wait queue does: it is known and waiting.
pub proof fn law_waiting_tasks_are_live(s: &Scheduler, id: u64)
    requires
        s.wf(),
        s.waiting().dom().contains(id),
    ensures
        s.tasks().dom().contains(id),
        s.tasks()[id].state is Waiting,
        !is_finished(s.tasks()[id].state),
{
}

/// A task is finished exactly when it has exited or failed.
pub proof fn law_finished_means_exited_or_failed(t: StateView)
    ensures
        is_finished(t) <==> (t is Exited || t is Failed),
        !is_finished(StateView::Ready),
        !is_finished(StateView::Yielded),
{
}

} // verus!
