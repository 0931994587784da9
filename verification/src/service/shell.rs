//! The desktop's command line: `help`, `ls <path>` and
//! `spawn <app> <program.wasm> [args...]`, each answered with a response that
//! carries the command, its output and a status.
use crate::service::runtime::launch_error_text;
use crate::service::scheduler::{Scheduler, SpawnRequest, hyphenated, spawn_effect, spawn_state, uuid_text};
use crate::service::vfs::{DirEntry, app_gate, refusal_text, safety};
use crate::text::{concat2, has_suffix, join_texts, joined, split_words, text_eq, texts, words};
use vstd::prelude::*;

verus! {

/// What `help` prints.
pub const HELP_TEXT: &'static str = "commands: help, ls <path>, spawn <app> <program.wasm> [args...]";

/// The answer to a command.
#[derive(Debug)]
pub struct ShellResponse {
    pub command: String,
    pub stdout: String,
    pub stderr: String,
    pub status: i32,
}

impl ShellResponse {
    pub open spec fn view(&self) -> (Seq<char>, Seq<char>, Seq<char>, i32) {
        (self.command@, self.stdout@, self.stderr@, self.status)
    }
}

/// A successful answer.
pub open spec fn ok_view(
    command: Seq<char>,
    stdout: Seq<char>,
) -> (Seq<char>, Seq<char>, Seq<char>, i32) {
    (command, stdout, Seq::empty(), 0)
}

/// A failed answer.
pub open spec fn err_view(
    command: Seq<char>,
    stderr: Seq<char>,
) -> (Seq<char>, Seq<char>, Seq<char>, i32) {
    (command, Seq::empty(), stderr, 1)
}

/// A successful answer: the output, no error text, status 0.
pub fn ok(command: &str, stdout: String) -> (r: ShellResponse)
    ensures
        r@ == ok_view(command@, stdout@),
{
    ShellResponse { command: command.to_string(), stdout, stderr: String::new(), status: 0 }
}

/// A failed answer: no output, the error text, status 1.
pub fn err(command: &str, stderr: String) -> (r: ShellResponse)
    ensures
        r@ == err_view(command@, stderr@),
{
    ShellResponse { command: command.to_string(), stdout: String::new(), stderr, status: 1 }
}

/// The paths of the entries of a listing.
pub open spec fn listing_paths(l: Seq<(Seq<char>, Seq<char>, usize)>) -> Seq<Seq<char>> {
    l.map_values(|e: (Seq<char>, Seq<char>, usize)| e.0)
}

/// The command interpreter and the scheduler it drives.
pub struct Shell {
    scheduler: Scheduler,
}

/// What running a command with `id` as the id of a task it may spawn does
/// and answers.
pub open spec fn execute_effect(
    pre: Shell,
    post: Shell,
    command: Seq<char>,
    id: u128,
    resp: (Seq<char>, Seq<char>, Seq<char>, i32),
) -> bool {
    let ws = words(command);
    if ws.len() == 1 && ws[0] == "help"@ {
        resp == ok_view(command, HELP_TEXT@) && post == pre
    } else if ws.len() == 2 && ws[0] == "ls"@ {
        &&& post == pre
        &&& match safety(ws[1]) {
            Err(e) => resp == err_view(command, refusal_text(e)),
            Ok(_) => resp == ok_view(
                command,
                joined(listing_paths(pre.sched().runtime().fs().listing(ws[1])), "\n"@),
            ),
        }
    } else if ws.len() >= 3 && ws[0] == "spawn"@ {
        let req = (ws[2], ws.subrange(3, ws.len() as int), ws[1]);
        &&& spawn_state(pre.sched(), post.sched(), id, req)
        &&& if !has_suffix(ws[2], ".wasm"@) {
            resp == err_view(command, "program must be a .wasm module"@)
        } else if app_gate(ws[1]) is Err {
            resp == err_view(command, refusal_text(app_gate(ws[1])->Err_0))
        } else {
            resp == ok_view(command, "spawned "@ + hyphenated(id))
        }
    } else if ws.len() == 0 {
        resp == ok_view(command, Seq::empty()) && post == pre
    } else {
        resp == err_view(command, "unknown command"@) && post == pre
    }
}

impl Shell {
    pub closed spec fn wf(&self) -> bool {
        self.scheduler.wf()
    }

    /// The scheduler.
    pub closed spec fn sched(&self) -> Scheduler {
        self.scheduler
    }

    pub fn new(scheduler: Scheduler) -> (s: Self)
        requires
            scheduler.wf(),
        ensures
            s.wf(),
            s.sched() == scheduler,
    {
        Shell { scheduler }
    }

    /// The scheduler.
    pub fn scheduler(&self) -> (s: &Scheduler)
        ensures
            *s == self.sched(),
    {
        &self.scheduler
    }

    /// Starts a program under the id `id`.
    pub fn spawn(&mut self, req: SpawnRequest, id: u128) -> (r: Result<crate::service::scheduler::TaskRecord, crate::service::runtime::LaunchError>)
        requires
            old(self).wf(),
        ensures
            final(self).wf(),
            spawn_effect(old(self).sched(), final(self).sched(), id, req@, r),
    {
        self.scheduler.spawn(req, id)
    }

    /// Stores a file in the filesystem.
    pub fn write_file(&mut self, path: &str, contents: Vec<u8>) -> (r: Result<(), crate::service::vfs::FsRefusal>)
        requires
            old(self).wf(),
        ensures
            final(self).wf(),
            final(self).sched().records() == old(self).sched().records(),
            final(self).sched().runtime().network() == old(self).sched().runtime().network(),
            final(self).sched().runtime().windows() == old(self).sched().runtime().windows(),
            old(self).sched().runtime().fs().write_file_effect(
                final(self).sched().runtime().fs(),
                path@,
                contents,
                r,
            ),
    {
        self.scheduler.write_file(path, contents)
    }

    /// Removes a file or directory from the filesystem.
    pub fn delete(&mut self, path: &str) -> (r: Result<(), crate::service::vfs::FsRefusal>)
        requires
            old(self).wf(),
        ensures
            final(self).wf(),
            final(self).sched().records() == old(self).sched().records(),
            final(self).sched().runtime().network() == old(self).sched().runtime().network(),
            final(self).sched().runtime().windows() == old(self).sched().runtime().windows(),
            old(self).sched().runtime().fs().delete_effect(final(self).sched().runtime().fs(), path@, r),
    {
        self.scheduler.delete(path)
    }

    /// Hands out the waiting GUI events.
    pub fn drain_events(&mut self) -> (v: Vec<serde_json::Value>)
        requires
            old(self).wf(),
        ensures
            final(self).wf(),
            final(self).sched().records() == old(self).sched().records(),
            v@ == old(self).sched().runtime().windows().events(),
            final(self).sched().runtime().windows().events() == Seq::<serde_json::Value>::empty(),
    {
        self.scheduler.drain_events()
    }

    /// Runs a command; a task it spawns gets the id `id`, which the caller
    /// draws (a random version-4 UUID on the desktop).
    pub fn execute(&mut self, command: &str, id: u128) -> (r: ShellResponse)
        requires
            old(self).wf(),
        ensures
            final(self).wf(),
            execute_effect(*old(self), *final(self), command@, id, r@),
    {
        let ws = split_words(command);
        proof {
            assert(texts(ws@) == words(command@));
        }
        if ws.len() == 1 && text_eq(ws[0].as_str(), "help") {
            return ok(command, HELP_TEXT.to_string());
        }
        if ws.len() == 2 && text_eq(ws[0].as_str(), "ls") {
            let path = ws[1].as_str();
            return match self.scheduler.vfs().read_dir(path) {
                Ok(entries) => {
                    let mut paths: Vec<String> = Vec::new();
                    let mut i: usize = 0;
                    while i < entries.len()
                        invariant
                            i <= entries@.len(),
                            texts(paths@) == listing_paths(
                                entries@.map_values(|e: DirEntry| e@),
                            ).take(i as int),
                        decreases entries@.len() - i,
                    {
                        let p = entries[i].path.clone();
                        proof {
                            assert(texts(paths@.push(p)) =~= texts(paths@).push(p@));
                            assert(listing_paths(entries@.map_values(|e: DirEntry| e@)).take(i + 1)
                                =~= listing_paths(entries@.map_values(|e: DirEntry| e@)).take(
                                i as int,
                            ).push(entries@[i as int].path@));
                        }
                        paths.push(p);
                        i = i + 1;
                    }
                    proof {
                        assert(listing_paths(entries@.map_values(|e: DirEntry| e@)).take(
                            entries@.len() as int,
                        ) =~= listing_paths(entries@.map_values(|e: DirEntry| e@)));
                    }
                    ok(command, join_texts(paths.as_slice(), "\n"))
                },
                Err(e) => err(command, e.message()),
            };
        }
        if ws.len() >= 3 && text_eq(ws[0].as_str(), "spawn") {
            let mut argv: Vec<String> = Vec::new();
            let mut i: usize = 3;
            while i < ws.len()
                invariant
                    3 <= i <= ws@.len(),
                    texts(argv@) == texts(ws@).subrange(3, i as int),
                decreases ws@.len() - i,
            {
                let a = ws[i].clone();
                proof {
                    assert(texts(argv@.push(a)) =~= texts(argv@).push(a@));
                    assert(texts(ws@).subrange(3, i + 1) =~= texts(ws@).subrange(3, i as int).push(
                        ws@[i as int]@,
                    ));
                }
                argv.push(a);
                i = i + 1;
            }
            let req = SpawnRequest { program: ws[2].clone(), argv, app_id: ws[1].clone() };
            let r = self.scheduler.spawn(req, id);
            return match r {
                Ok(task) => ok(command, concat2("spawned ", uuid_text(task.id).as_str())),
                Err(e) => err(command, e.message()),
            };
        }
        if ws.len() == 0 {
            return ok(command, String::new());
        }
        err(command, "unknown command".to_string())
    }
}

} // verus!
