use wasmos::runtime::{
    chain_reports_out_of_fuel, format_runtime_error, fuel_budget_for_quantum, is_out_of_fuel_trap,
    select_entry_point, select_error_text, validate_abi_strategy, AbiSelection, AbiStrategy,
    GuestCallOutcome, RuntimeBlockReason, RuntimePoll, TaskEntryPoint, TaskIdAllocator,
    TaskRuntimeControl, WasiOptions,
};

#[test]
fn runtime_error_formatter_keeps_context_chain() {
    let error = anyhow::Error::msg("inner cause").context("outer context");
    let formatted = format_runtime_error(&error);
    assert!(
        formatted.contains("outer context"),
        "formatted error should keep outer context: {formatted}"
    );
    assert!(
        formatted.contains("inner cause"),
        "formatted error should keep inner cause: {formatted}"
    );
}

fn names(items: &[&str]) -> Vec<String> {
    items.iter().map(|s| s.to_string()).collect()
}

fn abi(strategy: AbiStrategy) -> AbiSelection {
    AbiSelection { strategy, wasi: WasiOptions::default() }
}

#[test]
fn validates_abi_custom_only_requires_resume_export() {
    let err = validate_abi_strategy(&names(&[]), &names(&[]), &abi(AbiStrategy::CustomOnly))
        .expect_err("custom-only guest without wasmos_resume should fail");
    assert!(
        err.contains("custom-only guests must export `wasmos_resume`"),
        "unexpected error: {err}"
    );
}

#[test]
fn validates_abi_pure_wasi_rejects_custom_imports() {
    let err = validate_abi_strategy(
        &names(&["wasmos"]),
        &names(&["_start"]),
        &abi(AbiStrategy::PureWasi),
    )
    .expect_err("pure wasi guest with custom imports should fail");
    assert!(
        err.contains("pure WASI mode does not allow `wasmos` imports"),
        "unexpected error: {err}"
    );
}

#[test]
fn abi_rules_accept_matching_guests() {
    assert!(validate_abi_strategy(
        &names(&["wasmos"]),
        &names(&["wasmos_resume"]),
        &abi(AbiStrategy::CustomOnly)
    )
    .is_ok());
    assert!(validate_abi_strategy(
        &names(&["wasi_snapshot_preview1"]),
        &names(&["_start"]),
        &abi(AbiStrategy::PureWasi)
    )
    .is_ok());
    assert!(validate_abi_strategy(
        &names(&["wasi_snapshot_preview1", "wasmos"]),
        &names(&["main"]),
        &abi(AbiStrategy::Hybrid)
    )
    .is_ok());
}

#[test]
fn abi_rules_report_each_refusal() {
    let e = validate_abi_strategy(
        &names(&["wasi_snapshot_preview1"]),
        &names(&["wasmos_resume"]),
        &abi(AbiStrategy::CustomOnly),
    )
    .unwrap_err();
    assert_eq!(e, "custom-only mode does not allow `wasi_snapshot_preview1` imports");
    let e = validate_abi_strategy(&names(&["env"]), &names(&["_start"]), &abi(AbiStrategy::Hybrid))
        .unwrap_err();
    assert_eq!(
        e,
        "hybrid mode expects the guest to import either WASI or `wasmos` capabilities"
    );
    let e = validate_abi_strategy(
        &names(&["wasi_snapshot_preview1"]),
        &names(&["memory"]),
        &abi(AbiStrategy::PureWasi),
    )
    .unwrap_err();
    assert_eq!(
        e,
        "WASI-backed guests must export `_start` or `main` as the process entrypoint"
    );
}

#[test]
fn fuel_budget_follows_the_quantum() {
    assert_eq!(fuel_budget_for_quantum(0), 50_000);
    assert_eq!(fuel_budget_for_quantum(1), 1_000);
    assert_eq!(fuel_budget_for_quantum(10), 10_000);
    assert_eq!(fuel_budget_for_quantum(u64::MAX), u64::MAX);
}

#[test]
fn entry_point_prefers_resume_then_start_then_main() {
    assert!(matches!(select_entry_point(true, true, true), TaskEntryPoint::Resume));
    assert!(matches!(select_entry_point(false, true, true), TaskEntryPoint::WasiStart));
    assert!(matches!(select_entry_point(false, false, true), TaskEntryPoint::Main));
    assert!(matches!(select_entry_point(false, false, false), TaskEntryPoint::Resume));
}

#[test]
fn out_of_fuel_maps_to_runtime_yielded() {
    let mut control = TaskRuntimeControl::default();
    control.reset_for_quantum(1);
    let poll = control.finish_resume(0, GuestCallOutcome::OutOfFuel);
    assert!(
        matches!(poll, Some(RuntimePoll::Yielded)),
        "expected yielded from out-of-fuel preemption, got {poll:?}"
    );
    assert!(control.requested_yield);
}

#[test]
fn out_of_fuel_trap_is_recognised_in_the_chain() {
    let error = anyhow::Error::msg("all fuel consumed by WebAssembly").context("call failed");
    assert!(is_out_of_fuel_trap(&error));
    let other = anyhow::Error::msg("unreachable executed");
    assert!(!is_out_of_fuel_trap(&other));
    assert!(chain_reports_out_of_fuel(&vec![
        "outer".to_string(),
        "wasm trap: all fuel consumed by WebAssembly".to_string()
    ]));
    assert!(!chain_reports_out_of_fuel(&vec![]));
}

#[test]
fn error_text_prefers_the_multi_line_form() {
    assert_eq!(select_error_text("a\nb".to_string(), "d".to_string()), "a\nb");
    assert_eq!(select_error_text("a: b".to_string(), "d".to_string()), "d");
}

#[test]
fn completion_is_classified_by_the_last_request() {
    let mut control = TaskRuntimeControl::default();
    control.reset_for_quantum(5);
    assert!(matches!(control.classify_completion(3), RuntimePoll::Exited(3)));
    control.request_yield();
    assert!(matches!(control.classify_completion(0), RuntimePoll::Yielded));
    control.request_sleep(7);
    assert!(matches!(
        control.classify_completion(0),
        RuntimePoll::Waiting(RuntimeBlockReason::Sleep { duration_ms: 7 })
    ));
    control.request_io_wait("net".to_string());
    match control.classify_completion(0) {
        RuntimePoll::Waiting(RuntimeBlockReason::Io { channel }) => assert_eq!(channel, "net"),
        other => panic!("expected an I/O wait, got {other:?}"),
    }
}

#[test]
fn trapped_call_is_a_failure_and_return_is_an_exit() {
    let mut control = TaskRuntimeControl::default();
    control.reset_for_quantum(2);
    assert!(control.finish_resume(100, GuestCallOutcome::Trapped).is_none());
    control.reset_for_quantum(2);
    assert!(matches!(
        control.finish_resume(100, GuestCallOutcome::Returned(4)),
        Some(RuntimePoll::Exited(4))
    ));
    assert_eq!(control.fuel_remaining, 100);
}

#[test]
fn task_ids_start_at_one() {
    let mut ids = TaskIdAllocator::new();
    assert_eq!(ids.allocate_task_id(), 1);
    assert_eq!(ids.allocate_task_id(), 2);
}
