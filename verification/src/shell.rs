//! The decisions of the interactive shell: what a line of input asks for,
//! the launch request a `run` makes, and the replies it prints.
use crate::ordered::TextMap;
use crate::runtime::{AbiSelection, AbiStrategy, ProgramLaunchRequest};
use crate::scheduler::SchedulingMode;
use crate::text::{
    chars_of, decimal, push_decimal, push_text, split_words, string_from, text_eq, texts, trim,
    trim_chars, words,
};
use vstd::prelude::*;

verus! {

/// What the shell does with a line of input.
#[derive(Debug)]
pub enum LineAction {
    /// A blank line: prompt again.
    Skip,
    /// `exit`: leave the shell.
    Exit,
    /// Anything else: run it as a command, trimmed.
    Command(String),
}

/// What a line of input asks for: blank lines are skipped, `exit` ends the
/// shell, and anything else is a command.
pub fn line_action(line: &str) -> (a: LineAction)
    ensures
        trim(line@).len() == 0 ==> a is Skip,
        trim(line@) == "exit"@ ==> a is Exit,
        trim(line@).len() > 0 && trim(line@) != "exit"@ ==> (a matches LineAction::Command(c) && c@
            == trim(line@)),
{
    let cs = chars_of(line);
    let t = trim_chars(cs.as_slice());
    if t.len() == 0 {
        proof {
            reveal_strlit("exit");
        }
        return LineAction::Skip;
    }
    let text = string_from(t.as_slice());
    if text_eq(text.as_str(), "exit") {
        return LineAction::Exit;
    }
    LineAction::Command(text)
}

/// A command of the shell.
#[derive(Debug)]
pub enum ShellRequest {
    /// `run <module> [args...]`.
    Run { module: String, args: Vec<String> },
    /// `ps`: list the tasks.
    Ps,
    /// `sched`: show the scheduling mode.
    Sched,
    /// Anything else, by its first word (empty when there is none).
    Unknown(String),
}

/// What a command line asks for, by its first word.
pub fn parse_command(line: &str) -> (r: ShellRequest)
    ensures
        ({
            let ws = words(line@);
            let first = if ws.len() > 0 {
                ws[0]
            } else {
                Seq::empty()
            };
            if first == "run"@ {
                r matches ShellRequest::Run { module, args } && module@ == (if ws.len() > 1 {
                    ws[1]
                } else {
                    Seq::empty()
                }) && texts(args@) == (if ws.len() > 2 {
                    ws.subrange(2, ws.len() as int)
                } else {
                    Seq::empty()
                })
            } else if first == "ps"@ {
                r is Ps
            } else if first == "sched"@ {
                r is Sched
            } else {
                r matches ShellRequest::Unknown(w) && w@ == first
            }
        }),
{
    let ws = split_words(line);
    proof {
        assert(texts(ws@) == words(line@));
    }
    if ws.len() == 0 {
        proof {
            reveal_strlit("run");
            reveal_strlit("ps");
            reveal_strlit("sched");
        }
        return ShellRequest::Unknown(String::new());
    }
    let first = ws[0].as_str();
    if text_eq(first, "run") {
        let module = if ws.len() > 1 {
            ws[1].clone()
        } else {
            String::new()
        };
        let mut args: Vec<String> = Vec::new();
        let mut i: usize = 2;
        while i < ws.len()
            invariant
                2 <= i,
                ws@.len() > 2 ==> i <= ws@.len(),
                ws@.len() <= 2 ==> i == 2,
                texts(args@) == if ws@.len() > 2 {
                    texts(ws@).subrange(2, i as int)
                } else {
                    Seq::empty()
                },
            decreases ws@.len() - i,
        {
            let a = ws[i].clone();
            proof {
                assert(texts(args@.push(a)) =~= texts(args@).push(a@));
                assert(texts(ws@).subrange(2, i + 1) =~= texts(ws@).subrange(2, i as int).push(
                    ws@[i as int]@,
                ));
            }
            args.push(a);
            i = i + 1;
        }
        return ShellRequest::Run { module, args };
    }
    if text_eq(first, "ps") {
        return ShellRequest::Ps;
    }
    if text_eq(first, "sched") {
        return ShellRequest::Sched;
    }
    ShellRequest::Unknown(ws[0].clone())
}

/// The request a `run` launches: the module names the task, no environment,
/// the default ABI.
pub fn launch_request(module: String, args: Vec<String>) -> (r: ProgramLaunchRequest)
    ensures
        r.name@ == module@,
        r.module_location@ == module@,
        r.args@ == args@,
        r.env.wf(),
        r.env@.len() == 0,
        r.abi.strategy == AbiStrategy::Hybrid,
        r.abi.wasi.inherit_stdio,
        r.abi.wasi.expose_cli_environment,
{
    let env: TextMap<String> = TextMap::new();
    proof {
        assert(env@.dom() =~= Set::<Seq<char>>::empty());
    }
    ProgramLaunchRequest {
        name: module.clone(),
        module_location: module,
        args,
        env,
        abi: AbiSelection::default(),
    }
}

/// The reply to a successful `run`.
pub fn spawned_reply(task_id: u64) -> (s: String)
    ensures
        s@ == "spawned task "@ + decimal(task_id as nat),
{
    let mut out: Vec<char> = Vec::new();
    push_text(&mut out, "spawned task ");
    push_decimal(&mut out, task_id);
    proof {
        assert(out@ =~= "spawned task "@ + decimal(task_id as nat));
    }
    string_from(out.as_slice())
}

/// How a scheduling mode is printed.
pub open spec fn mode_text(mode: SchedulingMode) -> Seq<char> {
    match mode {
        SchedulingMode::Cooperative => "Cooperative"@,
        SchedulingMode::Preemptive { quantum_ms } => "Preemptive { quantum_ms: "@ + decimal(
            quantum_ms as nat,
        ) + " }"@,
    }
}

/// The reply to `sched`.
pub fn mode_reply(mode: &SchedulingMode) -> (s: String)
    ensures
        s@ == "scheduler mode: "@ + mode_text(*mode),
{
    let mut out: Vec<char> = Vec::new();
    push_text(&mut out, "scheduler mode: ");
    match mode {
        SchedulingMode::Cooperative => {
            push_text(&mut out, "Cooperative");
        },
        SchedulingMode::Preemptive { quantum_ms } => {
            push_text(&mut out, "Preemptive { quantum_ms: ");
            push_decimal(&mut out, *quantum_ms);
            push_text(&mut out, " }");
        },
    }
    proof {
        assert(out@ =~= "scheduler mode: "@ + mode_text(*mode));
    }
    string_from(out.as_slice())
}

/// The reply to a command the shell does not know.
pub fn unknown_reply(word: &str) -> (s: String)
    ensures
        s@ == "unknown command: "@ + word@,
{
    crate::text::concat2("unknown command: ", word)
}

} // verus!
