//! The desktop's task table: tasks are kept in id order, and
//! start as soon as the runtime accepts them.
use crate::service::gui::GuiBroker;
use crate::service::runtime::{LaunchError, RuntimeHost, app_prepared};
use crate::service::vfs::app_gate;
use crate::service::vfs::{DirEntry, FsRefusal, VirtualFileSystem, entry_views, safety};
use crate::text::{has_suffix, texts};
use vstd::prelude::*;

verus! {

/// Where a desktop task stands.
#[derive(Debug, Clone, Copy, PartialEq, Eq, Structural)]
pub enum TaskState {
    Ready,
    Running,
    Yielded,
    Exited,
    Faulted,
}

/// A request to start a program for an app.
#[derive(Debug)]
pub struct SpawnRequest {
    pub program: String,
    pub argv: Vec<String>,
    pub app_id: String,
}

/// A task of the desktop.
#[derive(Debug)]
pub struct TaskRecord {
    pub id: u128,
    pub state: TaskState,
    pub program: String,
    pub argv: Vec<String>,
    pub app_id: String,
}

/// What is known of a task.
pub struct RecordView {
    pub id: u128,
    pub state: TaskState,
    pub program: Seq<char>,
    pub argv: Seq<Seq<char>>,
    pub app_id: Seq<char>,
}

fn copy_texts(v: &Vec<String>) -> (r: Vec<String>)
    ensures
        texts(r@) == texts(v@),
{
    let mut out: Vec<String> = Vec::new();
    let mut i: usize = 0;
    while i < v.len()
        invariant
            i <= v@.len(),
            texts(out@) == texts(v@).take(i as int),
        decreases v@.len() - i,
    {
        let a = v[i].clone();
        proof {
            assert(texts(out@.push(a)) =~= texts(out@).push(a@));
            assert(texts(v@).take(i + 1) =~= texts(v@).take(i as int).push(v@[i as int]@));
        }
        out.push(a);
        i = i + 1;
    }
    proof {
        assert(texts(v@).take(v@.len() as int) =~= texts(v@));
    }
    out
}

impl TaskRecord {
    pub open spec fn view(&self) -> RecordView {
        RecordView {
            id: self.id,
            state: self.state,
            program: self.program@,
            argv: texts(self.argv@),
            app_id: self.app_id@,
        }
    }

    /// A copy of the record.
    pub fn duplicate(&self) -> (t: Self)
        ensures
            t@ == self@,
    {
        TaskRecord {
            id: self.id,
            state: self.state,
            program: self.program.clone(),
            argv: copy_texts(&self.argv),
            app_id: self.app_id.clone(),
        }
    }
}

/// The views of a table of records.
pub open spec fn record_views(s: Seq<TaskRecord>) -> Seq<RecordView> {
    s.map_values(|t: TaskRecord| t@)
}

/// `s` with `r` stored: in place of the first record with the same id met
/// before any larger id, or else in front of the first larger id.
pub open spec fn upsert(s: Seq<RecordView>, r: RecordView) -> Seq<RecordView>
    decreases s.len(),
{
    if s.len() == 0 {
        seq![r]
    } else if s[0].id == r.id {
        seq![r] + s.drop_first()
    } else if s[0].id > r.id {
        seq![r] + s
    } else {
        seq![s[0]] + upsert(s.drop_first(), r)
    }
}

/// `s` with every record of id `id` put in state `st`.
pub open spec fn restate(s: Seq<RecordView>, id: u128, st: TaskState) -> Seq<RecordView> {
    Seq::new(
        s.len(),
        |i: int|
            if s[i].id == id {
                RecordView { state: st, ..s[i] }
            } else {
                s[i]
            },
    )
}

/// The ids of `s` increase.
pub open spec fn ids_increasing(s: Seq<RecordView>) -> bool {
    forall|i: int, j: int| 0 <= i < j < s.len() ==> s[i].id < s[j].id
}

proof fn lemma_upsert_at(s: Seq<RecordView>, r: RecordView, p: int)
    requires
        0 <= p <= s.len(),
        forall|i: int| 0 <= i < p ==> s[i].id < r.id,
        p < s.len() ==> s[p].id >= r.id,
    ensures
        p < s.len() && s[p].id == r.id ==> upsert(s, r) == s.take(p) + seq![r] + s.skip(p + 1),
        !(p < s.len() && s[p].id == r.id) ==> upsert(s, r) == s.take(p) + seq![r] + s.skip(p),
    decreases p,
{
    if p == 0 {
        if s.len() > 0 {
            assert(s.take(0) + seq![r] + s.skip(1) =~= seq![r] + s.drop_first());
        }
        assert(s.take(0) + seq![r] + s.skip(0) =~= seq![r] + s);
    } else {
        let t = s.drop_first();
        lemma_upsert_at(t, r, p - 1);
        if p < s.len() {
            assert(s.take(p) + seq![r] + s.skip(p + 1) =~= seq![s[0]] + (t.take(p - 1) + seq![r]
                + t.skip(p)));
        }
        assert(s.take(p) + seq![r] + s.skip(p) =~= seq![s[0]] + (t.take(p - 1) + seq![r] + t.skip(
            p - 1,
        )));
    }
}

/// Storing a record keeps the ids increasing, and the record is then found
/// under its id.
pub proof fn law_upsert_keeps_id_order(s: Seq<RecordView>, r: RecordView)
    requires
        ids_increasing(s),
    ensures
        ids_increasing(upsert(s, r)),
        upsert(s, r).contains(r),
    decreases s.len(),
{
    if s.len() == 0 {
        assert(upsert(s, r)[0] == r);
    } else if s[0].id == r.id {
        assert(upsert(s, r)[0] == r);
    } else if s[0].id > r.id {
        assert(upsert(s, r)[0] == r);
    } else {
        let t = s.drop_first();
        law_upsert_keeps_id_order(t, r);
        let u = upsert(t, r);
        assert(upsert(s, r) == seq![s[0]] + u);
        assert forall|j: int| 0 <= j < u.len() implies s[0].id < #[trigger] u[j].id by {
            lemma_upsert_member(t, r, j);
        }
        let k = choose|k: int| 0 <= k < u.len() && u[k] == r;
        assert(upsert(s, r)[k + 1] == r);
    }
}

proof fn lemma_upsert_member(s: Seq<RecordView>, r: RecordView, j: int)
    requires
        0 <= j < upsert(s, r).len(),
    ensures
        upsert(s, r)[j] == r || s.contains(upsert(s, r)[j]),
    decreases s.len(),
{
    if s.len() == 0 {
    } else if s[0].id == r.id {
        if j > 0 {
            assert(upsert(s, r)[j] == s[j]);
        }
    } else if s[0].id > r.id {
        if j > 0 {
            assert(upsert(s, r)[j] == s[j - 1]);
        }
    } else {
        if j == 0 {
            assert(upsert(s, r)[0] == s[0]);
        } else {
            lemma_upsert_member(s.drop_first(), r, j - 1);
            let t = s.drop_first();
            if t.contains(upsert(t, r)[j - 1]) {
                let k = choose|k: int| 0 <= k < t.len() && t[k] == upsert(t, r)[j - 1];
                assert(s[k + 1] == t[k]);
            }
        }
    }
}

/// The runtime and the tasks it was asked to start.
pub struct Scheduler {
    runtime: RuntimeHost,
    tasks: Vec<TaskRecord>,
}

/// What spawning with a given id does to the scheduler: the record is stored
/// as ready, and when the program is a `.wasm` module the runtime prepares
/// its app and the record is marked running.
pub open spec fn spawn_state(
    pre: Scheduler,
    post: Scheduler,
    id: u128,
    req: (Seq<char>, Seq<Seq<char>>, Seq<char>),
) -> bool {
    let t = RecordView { id, state: TaskState::Ready, program: req.0, argv: req.1, app_id: req.2 };
    let stored = upsert(pre.records(), t);
    if !has_suffix(req.0, ".wasm"@) || app_gate(req.2) is Err {
        post.records() == stored && post.runtime() == pre.runtime()
    } else {
        post.records() == restate(stored, id, TaskState::Running) && app_prepared(
            pre.runtime(),
            post.runtime(),
            req.2,
        )
    }
}

/// What spawning with a given id does and answers: the running record, or
/// the refusal of a program that is no `.wasm` module.
pub open spec fn spawn_effect(
    pre: Scheduler,
    post: Scheduler,
    id: u128,
    req: (Seq<char>, Seq<Seq<char>>, Seq<char>),
    r: Result<TaskRecord, LaunchError>,
) -> bool {
    &&& spawn_state(pre, post, id, req)
    &&& if !has_suffix(req.0, ".wasm"@) {
        r matches Err(LaunchError::NotWasm)
    } else if app_gate(req.2) is Err {
        r == Err::<TaskRecord, LaunchError>(LaunchError::Fs(app_gate(req.2)->Err_0))
    } else {
        r matches Ok(rec) && rec@ == RecordView {
            id,
            state: TaskState::Running,
            program: req.0,
            argv: req.1,
            app_id: req.2,
        }
    }
}

/// The hexadecimal digit of a number below 16.
pub open spec fn hex_digit(n: u128) -> char {
    if n < 10 {
        (48 + n) as char
    } else {
        (87 + n) as char
    }
}

/// The 32 lowercase hexadecimal digits of an id, most significant first.
pub open spec fn hex_digits(id: u128) -> Seq<char> {
    Seq::new(32, |i: int| hex_digit((id >> ((124 - 4 * i) as u128)) & 0xfu128))
}

/// An id in the hyphenated 8-4-4-4-12 form.
pub open spec fn hyphenated(id: u128) -> Seq<char> {
    let h = hex_digits(id);
    h.subrange(0, 8) + seq!['-'] + h.subrange(8, 12) + seq!['-'] + h.subrange(12, 16) + seq!['-']
        + h.subrange(16, 20) + seq!['-'] + h.subrange(20, 32)
}

/// The text of an id as a UUID (`uuid::Uuid::from_u128` then `to_string`):
/// lowercase hexadecimal in the hyphenated form.
#[verifier::external_body]
pub(crate) fn uuid_text(id: u128) -> (s: String)
    ensures
        s@ == hyphenated(id),
{
    uuid::Uuid::from_u128(id).to_string()
}

impl SpawnRequest {
    pub open spec fn view(&self) -> (Seq<char>, Seq<Seq<char>>, Seq<char>) {
        (self.program@, texts(self.argv@), self.app_id@)
    }
}

impl Scheduler {
    pub closed spec fn wf(&self) -> bool {
        self.runtime.wf()
    }

    /// The runtime.
    pub closed spec fn runtime(&self) -> RuntimeHost {
        self.runtime
    }

    /// The tasks, in table order.
    pub closed spec fn records(&self) -> Seq<RecordView> {
        record_views(self.tasks@)
    }

    /// A scheduler with no task.
    pub fn new(runtime: RuntimeHost) -> (s: Self)
        requires
            runtime.wf(),
        ensures
            s.wf(),
            s.runtime() == runtime,
            s.records() == Seq::<RecordView>::empty(),
    {
        let s = Scheduler { runtime, tasks: Vec::new() };
        proof {
            assert(record_views(s.tasks@) =~= Seq::<RecordView>::empty());
        }
        s
    }

    fn store(&mut self, rec: TaskRecord)
        ensures
            final(self).runtime() == old(self).runtime(),
            final(self).records() == upsert(old(self).records(), rec@),
    {
        let ghost s = self.records();
        let mut p: usize = 0;
        while p < self.tasks.len() && self.tasks[p].id < rec.id
            invariant
                p <= self.tasks@.len(),
                s == record_views(self.tasks@),
                forall|i: int| 0 <= i < p ==> s[i].id < rec.id,
            decreases self.tasks@.len() - p,
        {
            p = p + 1;
        }
        proof {
            lemma_upsert_at(s, rec@, p as int);
        }
        let ghost rv = rec@;
        if p < self.tasks.len() && self.tasks[p].id == rec.id {
            self.tasks.remove(p);
            self.tasks.insert(p, rec);
            proof {
                assert(record_views(self.tasks@) =~= s.take(p as int) + seq![rv] + s.skip(p + 1));
            }
        } else {
            self.tasks.insert(p, rec);
            proof {
                assert(record_views(self.tasks@) =~= s.take(p as int) + seq![rv] + s.skip(p as int));
            }
        }
    }

    fn set_state(&mut self, id: u128, st: TaskState)
        ensures
            final(self).runtime() == old(self).runtime(),
            final(self).records() == restate(old(self).records(), id, st),
    {
        let ghost s = self.records();
        let mut i: usize = 0;
        while i < self.tasks.len()
            invariant
                i <= self.tasks@.len(),
                self.tasks@.len() == s.len(),
                self.runtime == old(self).runtime,
                record_views(self.tasks@) == restate(s, id, st).take(i as int) + s.skip(i as int),
            decreases self.tasks@.len() - i,
        {
            let ghost before = self.tasks@;
            proof {
                assert(record_views(before)[i as int] == (restate(s, id, st).take(i as int) + s.skip(
                    i as int,
                ))[i as int]);
                assert(before[i as int]@ == s[i as int]);
            }
            if self.tasks[i].id == id {
                let mut t = self.tasks.remove(i);
                t.state = st;
                let ghost tv = t@;
                self.tasks.insert(i, t);
                proof {
                    assert(self.tasks@ =~= before.update(i as int, t));
                    assert(tv == restate(s, id, st)[i as int]);
                    assert(record_views(self.tasks@) =~= record_views(before).update(i as int, tv));
                }
            }
            proof {
                assert(record_views(self.tasks@) =~= restate(s, id, st).take(i + 1) + s.skip(i + 1));
            }
            i = i + 1;
        }
        proof {
            assert(record_views(self.tasks@) =~= restate(s, id, st));
        }
    }

    /// Starts a program under the id `id`, which the caller draws (a random
    /// version-4 UUID on the desktop): the task is stored as ready and, when
    /// the runtime accepts it, marked running; a refused program stays stored
    /// as ready and the refusal is returned.
    pub fn spawn(&mut self, req: SpawnRequest, id: u128) -> (r: Result<TaskRecord, LaunchError>)
        requires
            old(self).wf(),
        ensures
            final(self).wf(),
            spawn_effect(*old(self), *final(self), id, req@, r),
    {
        let task = TaskRecord {
            id,
            state: TaskState::Ready,
            program: req.program.clone(),
            argv: copy_texts(&req.argv),
            app_id: req.app_id.clone(),
        };
        self.store(task.duplicate());
        let ticket = match self.runtime.launch(&task) {
            Ok(ticket) => ticket,
            Err(e) => {
                return Err(e);
            },
        };
        self.set_state(id, ticket.state);
        let mut out = task;
        out.state = ticket.state;
        Ok(out)
    }

    /// Copies of the tasks, in table order.
    pub fn snapshot(&self) -> (v: Vec<TaskRecord>)
        ensures
            record_views(v@) == self.records(),
    {
        let mut out: Vec<TaskRecord> = Vec::new();
        let mut i: usize = 0;
        while i < self.tasks.len()
            invariant
                i <= self.tasks@.len(),
                record_views(out@) == record_views(self.tasks@).take(i as int),
            decreases self.tasks@.len() - i,
        {
            let t = self.tasks[i].duplicate();
            proof {
                assert(record_views(out@.push(t)) =~= record_views(out@).push(t@));
                assert(record_views(self.tasks@).take(i + 1) =~= record_views(self.tasks@).take(
                    i as int,
                ).push(self.tasks@[i as int]@));
            }
            out.push(t);
            i = i + 1;
        }
        proof {
            assert(record_views(self.tasks@).take(self.tasks@.len() as int) =~= record_views(
                self.tasks@,
            ));
        }
        out
    }

    /// The filesystem.
    pub fn vfs(&self) -> (v: &VirtualFileSystem)
        ensures
            *v == self.runtime().fs(),
            self.wf() ==> v.wf(),
    {
        self.runtime.vfs()
    }

    /// Stores a file in the filesystem.
    pub fn write_file(&mut self, path: &str, contents: Vec<u8>) -> (r: Result<(), FsRefusal>)
        requires
            old(self).wf(),
        ensures
            final(self).wf(),
            final(self).records() == old(self).records(),
            final(self).runtime().network() == old(self).runtime().network(),
            final(self).runtime().windows() == old(self).runtime().windows(),
            old(self).runtime().fs().write_file_effect(final(self).runtime().fs(), path@, contents, r),
    {
        self.runtime.write_file(path, contents)
    }

    /// Removes a file or directory from the filesystem.
    pub fn delete(&mut self, path: &str) -> (r: Result<(), FsRefusal>)
        requires
            old(self).wf(),
        ensures
            final(self).wf(),
            final(self).records() == old(self).records(),
            final(self).runtime().network() == old(self).runtime().network(),
            final(self).runtime().windows() == old(self).runtime().windows(),
            old(self).runtime().fs().delete_effect(final(self).runtime().fs(), path@, r),
    {
        self.runtime.delete(path)
    }

    /// Hands out the waiting GUI events.
    pub fn drain_events(&mut self) -> (v: Vec<serde_json::Value>)
        requires
            old(self).wf(),
        ensures
            final(self).wf(),
            final(self).records() == old(self).records(),
            v@ == old(self).runtime().windows().events(),
            final(self).runtime().windows().events() == Seq::<serde_json::Value>::empty(),
    {
        self.runtime.drain_events()
    }
}

} // verus!
