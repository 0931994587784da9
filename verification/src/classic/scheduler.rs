//! The round-robin queue of the first runtime: each tick runs the task at the
//! front of the queue for one slice and puts it at the back.
use crate::ordered::IdMap;
use crate::text::texts;
use vstd::prelude::*;

verus! {

/// Where a task stands.
#[derive(Debug, Clone, Copy, PartialEq, Eq, Structural)]
pub enum TaskState {
    Ready,
    Running,
    Waiting,
    Exited(i32),
}

/// What a task runs: a program and its arguments.
#[derive(Debug)]
pub struct TaskSpec {
    pub program: String,
    pub args: Vec<String>,
}

impl TaskSpec {
    pub open spec fn view(&self) -> (Seq<char>, Seq<Seq<char>>) {
        (self.program@, texts(self.args@))
    }

    /// A WebAssembly program with no arguments.
    pub fn wasm(program: String) -> (s: Self)
        ensures
            s@ == (program@, Seq::<Seq<char>>::empty()),
    {
        let s = TaskSpec { program, args: Vec::new() };
        proof {
            assert(texts(s.args@) =~= Seq::<Seq<char>>::empty());
        }
        s
    }

    /// A copy of the spec.
    pub fn duplicate(&self) -> (s: Self)
        ensures
            s@ == self@,
    {
        let mut args: Vec<String> = Vec::new();
        let mut i: usize = 0;
        while i < self.args.len()
            invariant
                i <= self.args@.len(),
                texts(args@) == texts(self.args@).take(i as int),
            decreases self.args@.len() - i,
        {
            let a = self.args[i].clone();
            proof {
                assert(texts(args@.push(a)) =~= texts(args@).push(a@));
                assert(texts(self.args@).take(i + 1) =~= texts(self.args@).take(i as int).push(
                    self.args@[i as int]@,
                ));
            }
            args.push(a);
            i = i + 1;
        }
        proof {
            assert(texts(self.args@).take(self.args@.len() as int) =~= texts(self.args@));
        }
        TaskSpec { program: self.program.clone(), args }
    }
}

/// A task: its id, what it runs, where it stands and how many slices it got.
#[derive(Debug)]
pub struct TaskControlBlock {
    pub pid: u64,
    pub spec: TaskSpec,
    pub state: TaskState,
    pub ticks: u64,
}

/// What is known of a task.
pub struct TaskView {
    pub pid: u64,
    pub spec: (Seq<char>, Seq<Seq<char>>),
    pub state: TaskState,
    pub ticks: u64,
}

impl TaskControlBlock {
    pub open spec fn view(&self) -> TaskView {
        TaskView { pid: self.pid, spec: self.spec@, state: self.state, ticks: self.ticks }
    }

    /// A copy of the block.
    pub fn duplicate(&self) -> (t: Self)
        ensures
            t@ == self@,
    {
        TaskControlBlock { pid: self.pid, spec: self.spec.duplicate(), state: self.state, ticks: self.ticks }
    }
}

/// The tasks and the queue of tasks waiting for a slice.
#[derive(Debug)]
pub struct Scheduler {
    next_pid: u64,
    ready: Vec<u64>,
    tasks: IdMap<TaskControlBlock>,
}

/// The map of views of a map of blocks.
pub open spec fn task_views(m: Map<u64, TaskControlBlock>) -> Map<u64, TaskView> {
    m.map_values(|t: TaskControlBlock| t@)
}

impl Scheduler {
    pub closed spec fn wf(&self) -> bool {
        self.tasks.wf()
    }

    /// The last pid handed out (0 before the first task).
    pub closed spec fn last_pid(&self) -> u64 {
        self.next_pid
    }

    /// The pids waiting for a slice, front first.
    pub closed spec fn ready(&self) -> Seq<u64> {
        self.ready@
    }

    /// Every task ever enqueued, by pid.
    pub closed spec fn tasks(&self) -> Map<u64, TaskView> {
        task_views(self.tasks@)
    }

    /// An empty scheduler.
    pub fn new() -> (s: Self)
        ensures
            s.wf(),
            s.last_pid() == 0,
            s.ready() == Seq::<u64>::empty(),
            s.tasks() == Map::<u64, TaskView>::empty(),
    {
        let s = Scheduler { next_pid: 0, ready: Vec::new(), tasks: IdMap::new() };
        proof {
            assert(task_views(s.tasks@) =~= Map::<u64, TaskView>::empty());
        }
        s
    }

    /// Whether another pid can be handed out.
    pub fn can_enqueue(&self) -> (b: bool)
        ensures
            b == (self.last_pid() < u64::MAX),
    {
        self.next_pid < u64::MAX
    }

    /// Adds a ready task at the back of the queue and gives its pid, one past
    /// the last pid.
    pub fn enqueue(&mut self, spec: TaskSpec) -> (pid: u64)
        requires
            old(self).wf(),
            old(self).last_pid() < u64::MAX,
        ensures
            final(self).wf(),
            pid == old(self).last_pid() + 1,
            final(self).last_pid() == pid,
            final(self).ready() == old(self).ready().push(pid),
            final(self).tasks() == old(self).tasks().insert(
                pid,
                TaskView { pid, spec: spec@, state: TaskState::Ready, ticks: 0 },
            ),
    {
        self.next_pid = self.next_pid + 1;
        let pid = self.next_pid;
        let t = TaskControlBlock { pid, spec, state: TaskState::Ready, ticks: 0 };
        let ghost tv = t@;
        self.tasks.insert(pid, t);
        self.ready.push(pid);
        proof {
            assert(task_views(self.tasks@) =~= task_views(old(self).tasks@).insert(pid, tv));
        }
        pid
    }

    /// Whether the next tick can count one more slice for the task it runs.
    pub open spec fn can_tick(&self) -> bool {
        self.ready().len() > 0 && self.tasks().dom().contains(self.ready()[0]) ==> self.tasks()[self.ready()[0]].ticks
            < u64::MAX
    }

    /// Runs the task at the front of the queue for one slice: gives it as it
    /// was while it ran, counts the slice, and puts it back at the end of the
    /// queue, ready. An empty queue gives nothing; a pid with no task leaves
    /// the queue.
    pub fn tick(&mut self) -> (r: Option<TaskControlBlock>)
        requires
            old(self).wf(),
            old(self).can_tick(),
        ensures
            final(self).wf(),
            final(self).last_pid() == old(self).last_pid(),
            old(self).ready().len() == 0 ==> r is None && final(self).ready() == old(self).ready()
                && final(self).tasks() == old(self).tasks(),
            old(self).ready().len() > 0 ==> ({
                let pid = old(self).ready()[0];
                if !old(self).tasks().dom().contains(pid) {
                    r is None && final(self).ready() == old(self).ready().drop_first()
                        && final(self).tasks() == old(self).tasks()
                } else {
                    let t = old(self).tasks()[pid];
                    &&& r matches Some(s) && s@ == TaskView {
                        state: TaskState::Running,
                        ticks: (t.ticks + 1) as u64,
                        ..t
                    }
                    &&& final(self).ready() == old(self).ready().drop_first().push(pid)
                    &&& final(self).tasks() == old(self).tasks().insert(
                        pid,
                        TaskView { state: TaskState::Ready, ticks: (t.ticks + 1) as u64, ..t },
                    )
                }
            }),
    {
        if self.ready.len() == 0 {
            return None;
        }
        let pid = self.ready.remove(0);
        proof {
            assert(self.ready@ =~= old(self).ready@.drop_first());
        }
        let mut task = match self.tasks.remove(pid) {
            None => {
                proof {
                    assert(task_views(self.tasks@) =~= task_views(old(self).tasks@));
                }
                return None;
            },
            Some(task) => task,
        };
        task.state = TaskState::Running;
        task.ticks = task.ticks + 1;
        let snapshot = task.duplicate();
        task.state = TaskState::Ready;
        let ghost tv = task@;
        self.tasks.insert(pid, task);
        self.ready.push(pid);
        proof {
            assert(task_views(self.tasks@) =~= task_views(old(self).tasks@).insert(pid, tv));
        }
        Some(snapshot)
    }

    /// Marks a task as exited with a code; an unknown pid changes nothing.
    /// The queue is left as it is.
    pub fn exit(&mut self, pid: u64, code: i32)
        requires
            old(self).wf(),
        ensures
            final(self).wf(),
            final(self).last_pid() == old(self).last_pid(),
            final(self).ready() == old(self).ready(),
            old(self).tasks().dom().contains(pid) ==> final(self).tasks() == old(self).tasks().insert(
                pid,
                TaskView { state: TaskState::Exited(code), ..old(self).tasks()[pid] },
            ),
            !old(self).tasks().dom().contains(pid) ==> final(self).tasks() == old(self).tasks(),
    {
        match self.tasks.remove(pid) {
            None => {
                proof {
                    assert(task_views(self.tasks@) =~= task_views(old(self).tasks@));
                }
            },
            Some(task) => {
                let mut task = task;
                task.state = TaskState::Exited(code);
                let ghost tv = task@;
                self.tasks.insert(pid, task);
                proof {
                    assert(task_views(self.tasks@) =~= task_views(old(self).tasks@).insert(pid, tv));
                }
            },
        }
    }
}

} // verus!
