use wasmos::scheduler::SchedulingMode;
use wasmos::shell::{
    launch_request, line_action, mode_reply, parse_command, spawned_reply, unknown_reply,
    LineAction, ShellRequest,
};
use wasmos::text::{join_texts, split_words};

#[test]
fn lines_are_trimmed_and_classified() {
    assert!(matches!(line_action("   "), LineAction::Skip));
    assert!(matches!(line_action(" exit \n"), LineAction::Exit));
    match line_action("  ps ") {
        LineAction::Command(c) => assert_eq!(c, "ps"),
        other => panic!("unexpected {other:?}"),
    }
}

#[test]
fn commands_are_parsed_by_their_first_word() {
    match parse_command("run /bin/a.wasm x  y") {
        ShellRequest::Run { module, args } => {
            assert_eq!(module, "/bin/a.wasm");
            assert_eq!(args, vec!["x".to_string(), "y".to_string()]);
        }
        other => panic!("unexpected {other:?}"),
    }
    match parse_command("run") {
        ShellRequest::Run { module, args } => {
            assert_eq!(module, "");
            assert!(args.is_empty());
        }
        other => panic!("unexpected {other:?}"),
    }
    assert!(matches!(parse_command("ps"), ShellRequest::Ps));
    assert!(matches!(parse_command("sched extra"), ShellRequest::Sched));
    match parse_command("halt") {
        ShellRequest::Unknown(w) => assert_eq!(w, "halt"),
        other => panic!("unexpected {other:?}"),
    }
}

#[test]
fn replies_are_formatted() {
    assert_eq!(spawned_reply(42), "spawned task 42");
    assert_eq!(mode_reply(&SchedulingMode::Cooperative), "scheduler mode: Cooperative");
    assert_eq!(
        mode_reply(&SchedulingMode::Preemptive { quantum_ms: 10 }),
        "scheduler mode: Preemptive { quantum_ms: 10 }"
    );
    assert_eq!(unknown_reply("zz"), "unknown command: zz");
    let r = launch_request("/m.wasm".to_string(), vec!["a".to_string()]);
    assert_eq!(r.name, "/m.wasm");
    assert_eq!(r.module_location, "/m.wasm");
    assert_eq!(r.env.len(), 0);
}

#[test]
fn words_split_on_unicode_whitespace() {
    let ws = split_words(" a\tbb\u{3000}c  \n");
    assert_eq!(ws, vec!["a".to_string(), "bb".to_string(), "c".to_string()]);
    assert!(split_words("").is_empty());
    assert_eq!(join_texts(&ws, "-"), "a-bb-c");
    assert_eq!(join_texts(&[], "-"), "");
}
