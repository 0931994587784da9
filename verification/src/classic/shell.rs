//! The command interpreter of the first runtime: one line in, one line out.
use crate::classic::scheduler::{Scheduler, TaskSpec, TaskState, TaskView};
use crate::classic::vfs::{FsError, Node, VirtualFileSystem, entry_names};
use crate::text::lossy_text;
use crate::classic::wasm::{RuntimeHost, window_opened};
use crate::text::{concat2, join_texts, joined, split_words, text_eq, texts, words};
use vstd::prelude::*;
use vstd::utf8::{decode_utf8, encode_utf8, valid_utf8};

verus! {

/// What `help` prints.
pub const HELP_TEXT: &'static str = "help | ls <path> | cat <path> | write <path> <content> | run <module>";

/// The second word, or `default` when there is none.
pub open spec fn arg_or(ws: Seq<Seq<char>>, default: Seq<char>) -> Seq<char> {
    if ws.len() > 1 {
        ws[1]
    } else {
        default
    }
}

/// The words after the second.
pub open spec fn rest_words(ws: Seq<Seq<char>>) -> Seq<Seq<char>> {
    if ws.len() > 2 {
        ws.subrange(2, ws.len() as int)
    } else {
        Seq::empty()
    }
}

/// The shell and the subsystems it drives.
#[derive(Debug)]
pub struct Shell {
    vfs: VirtualFileSystem,
    scheduler: Scheduler,
    runtime: RuntimeHost,
}

/// What running a command line does, and what it answers.
pub open spec fn command_effect(
    pre: Shell,
    post: Shell,
    input: Seq<char>,
    r: Result<String, FsError>,
) -> bool {
    let ws = words(input);
    if ws.len() == 0 {
        r matches Ok(s) && s@.len() == 0 && post == pre
    } else if ws[0] == "help"@ {
        r matches Ok(s) && s@ == HELP_TEXT@ && post == pre
    } else if ws[0] == "ls"@ {
        let p = arg_or(ws, "/"@);
        &&& post == pre
        &&& if !pre.fs().nodes().dom().contains(p) {
            r == Err::<String, FsError>(FsError::MissingPath)
        } else {
            match pre.fs().nodes()[p] {
                Node::File(_) => r == Err::<String, FsError>(FsError::NotADirectory),
                Node::Directory(d) => r matches Ok(s) && s@ == joined(entry_names(d), " "@),
            }
        }
    } else if ws[0] == "cat"@ {
        let p = arg_or(ws, "/"@);
        &&& post == pre
        &&& if !pre.fs().nodes().dom().contains(p) {
            r == Err::<String, FsError>(FsError::MissingPath)
        } else {
            match pre.fs().nodes()[p] {
                Node::File(bytes) => r matches Ok(s) && s@ == lossy_text(bytes@) && (valid_utf8(bytes@)
                    ==> s@ == decode_utf8(bytes@)),
                Node::Directory(_) => r == Err::<String, FsError>(FsError::IsADirectory),
            }
        }
    } else if ws[0] == "write"@ {
        let p = arg_or(ws, "/tmp/out.txt"@);
        let content = joined(rest_words(ws), " "@);
        &&& r matches Ok(s) && s@ == "wrote "@ + p
        &&& post.fs().nodes().dom() == pre.fs().nodes().dom().insert(p)
        &&& post.fs().nodes()[p] matches Node::File(b) && b@ == encode_utf8(content)
        &&& forall|q: Seq<char>|
            q != p && #[trigger] pre.fs().nodes().dom().contains(q) ==> post.fs().nodes()[q]
                == pre.fs().nodes()[q]
        &&& post.sched() == pre.sched()
        &&& post.host() == pre.host()
    } else if ws[0] == "run"@ {
        let m = arg_or(ws, "/bin/app.wasm"@);
        let pid = (pre.sched().last_pid() + 1) as u64;
        &&& r matches Ok(s) && s@ == "scheduled "@ + m
        &&& post.fs() == pre.fs()
        &&& post.sched().last_pid() == pid
        &&& post.sched().ready() == pre.sched().ready().push(pid)
        &&& post.sched().tasks() == pre.sched().tasks().insert(
            pid,
            TaskView {
                pid,
                spec: (m, Seq::<Seq<char>>::empty()),
                state: TaskState::Ready,
                ticks: 0,
            },
        )
        &&& post.host().network() == pre.host().network()
        &&& window_opened(pre.host().gui(), post.host().gui(), m)
    } else {
        r matches Ok(s) && s@ == "unknown command: "@ + ws[0] && post == pre
    }
}

impl Shell {
    pub closed spec fn wf(&self) -> bool {
        self.vfs.wf() && self.scheduler.wf() && self.runtime.wf()
    }

    /// The filesystem.
    pub closed spec fn fs(&self) -> VirtualFileSystem {
        self.vfs
    }

    /// The task queue.
    pub closed spec fn sched(&self) -> Scheduler {
        self.scheduler
    }

    /// The host that prepares tasks.
    pub closed spec fn host(&self) -> RuntimeHost {
        self.runtime
    }

    pub fn new(vfs: VirtualFileSystem, scheduler: Scheduler, runtime: RuntimeHost) -> (s: Self)
        requires
            vfs.wf(),
            scheduler.wf(),
            runtime.wf(),
        ensures
            s.wf(),
            s.fs() == vfs,
            s.sched() == scheduler,
            s.host() == runtime,
    {
        Shell { vfs, scheduler, runtime }
    }

    /// The filesystem.
    pub fn vfs(&self) -> (v: &VirtualFileSystem)
        ensures
            *v == self.fs(),
    {
        &self.vfs
    }

    /// The task queue.
    pub fn scheduler(&self) -> (v: &Scheduler)
        ensures
            *v == self.sched(),
    {
        &self.scheduler
    }

    /// The host that prepares tasks.
    pub fn runtime(&self) -> (v: &RuntimeHost)
        ensures
            *v == self.host(),
    {
        &self.runtime
    }

    /// Whether `run` can number one more task and one more window.
    pub open spec fn can_run(&self) -> bool {
        self.sched().last_pid() < u64::MAX && self.host().gui().windows().dom().len() < u64::MAX
    }

    /// Runs one command line: `help`, `ls [path]`, `cat [path]`,
    /// `write [path] [words...]` or `run [module]`; anything else is answered
    /// as an unknown command, and a blank line with nothing.
    pub fn handle_command(&mut self, input: &str) -> (r: Result<String, FsError>)
        requires
            old(self).wf(),
            words(input@).len() > 0 && words(input@)[0] == "run"@ ==> old(self).can_run(),
        ensures
            final(self).wf(),
            command_effect(*old(self), *final(self), input@, r),
    {
        let ws = split_words(input);
        proof {
            assert(texts(ws@) == words(input@));
        }
        if ws.len() == 0 {
            return Ok(String::new());
        }
        let command = ws[0].as_str();
        proof {
            assert(command@ == words(input@)[0]);
        }
        if text_eq(command, "help") {
            return Ok(HELP_TEXT.to_string());
        }
        if text_eq(command, "ls") {
            let path = if ws.len() > 1 {
                ws[1].as_str()
            } else {
                "/"
            };
            proof {
                assert(path@ == arg_or(words(input@), "/"@));
            }
            return match self.vfs.list(path) {
                Ok(entries) => {
                    proof {
                        assert(texts(entries@) == entries@.map_values(|s: String| s@));
                    }
                    Ok(join_texts(entries.as_slice(), " "))
                },
                Err(e) => Err(e),
            };
        }
        if text_eq(command, "cat") {
            let path = if ws.len() > 1 {
                ws[1].as_str()
            } else {
                "/"
            };
            proof {
                assert(path@ == arg_or(words(input@), "/"@));
            }
            return self.vfs.read_to_string(path);
        }
        if text_eq(command, "write") {
            let path = if ws.len() > 1 {
                ws[1].as_str()
            } else {
                "/tmp/out.txt"
            };
            let mut rest: Vec<String> = Vec::new();
            let mut i: usize = 2;
            while i < ws.len()
                invariant
                    2 <= i,
                    ws@.len() > 2 ==> i <= ws@.len(),
                    ws@.len() <= 2 ==> i == 2,
                    texts(rest@) == if ws@.len() > 2 {
                        texts(ws@).subrange(2, i as int)
                    } else {
                        Seq::empty()
                    },
                decreases ws@.len() - i,
            {
                let w = ws[i].clone();
                proof {
                    assert(texts(rest@.push(w)) =~= texts(rest@).push(w@));
                    assert(texts(ws@).subrange(2, i + 1) =~= texts(ws@).subrange(2, i as int).push(
                        ws@[i as int]@,
                    ));
                }
                rest.push(w);
                i = i + 1;
            }
            proof {
                assert(path@ == arg_or(words(input@), "/tmp/out.txt"@));
                if ws@.len() > 2 {
                    assert(i == ws@.len());
                }
                assert(texts(rest@) == rest_words(words(input@)));
            }
            let content = join_texts(rest.as_slice(), " ");
            let _ = self.vfs.write_string(path, content.as_str());
            return Ok(concat2("wrote ", path));
        }
        if text_eq(command, "run") {
            let module = if ws.len() > 1 {
                ws[1].as_str()
            } else {
                "/bin/app.wasm"
            };
            proof {
                assert(module@ == arg_or(words(input@), "/bin/app.wasm"@));
            }
            let spec = TaskSpec::wasm(module.to_string());
            self.scheduler.enqueue(spec.duplicate());
            self.runtime.prepare_task(&spec);
            return Ok(concat2("scheduled ", module));
        }
        Ok(concat2("unknown command: ", command))
    }
}

} // verus!
