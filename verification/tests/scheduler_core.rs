use wasmos::ordered::TextMap;
use wasmos::program_api::SystemCallRegistry;
use wasmos::runtime::{
    AbiSelection, AbiStrategy, GuestCallOutcome, ProgramLaunchRequest, RuntimeBlockReason,
    RuntimePoll, TaskRuntimeControl, WasiOptions,
};
use wasmos::scheduler::{Scheduler, SchedulingMode, TaskControlBlock, TaskState, WaitState};

fn request(name: &str) -> ProgramLaunchRequest {
    ProgramLaunchRequest {
        name: name.to_string(),
        module_location: format!("/tmp/{name}.wasm"),
        args: vec![],
        env: TextMap::new(),
        abi: AbiSelection { strategy: AbiStrategy::CustomOnly, wasi: WasiOptions::default() },
    }
}

fn find(s: &Scheduler, id: u64) -> TaskControlBlock {
    s.list_tasks()
        .into_iter()
        .find(|entry| entry.id == id)
        .expect("task must exist")
}

#[test]
fn spawn_then_run_exits_task() {
    let mut scheduler = Scheduler::new_with_mode(SchedulingMode::Cooperative);
    let task_id = scheduler.spawn(1, &request("exit_once"));
    let dispatch = scheduler.begin_task_once(task_id).expect("run should succeed");
    assert_eq!(dispatch.task_id, task_id);
    assert!(matches!(find(&scheduler, task_id).state, TaskState::Running { .. }));
    scheduler.complete_dispatch(task_id, dispatch.tick, Ok(RuntimePoll::Exited(0)));
    let task = find(&scheduler, task_id);
    assert!(
        matches!(task.state, TaskState::Exited(0)),
        "expected exit transition, got {:?}",
        task.state
    );
    assert_eq!(task.timeslices, 1);
    assert!(!scheduler.has_active_tasks());
}

#[test]
fn sleep_syscall_moves_task_to_waiting_then_wakes() {
    let mut scheduler = Scheduler::new_with_mode(SchedulingMode::Cooperative);
    let task_id = scheduler.spawn(1, &request("sleeper"));
    let first = scheduler.begin_task_once(task_id).expect("run should succeed");
    let mut control = TaskRuntimeControl::default();
    control.reset_for_quantum(first.quantum_ms);
    assert_eq!(SystemCallRegistry::sleep_ms(&mut control, 2), 0);
    let poll = control.finish_resume(0, GuestCallOutcome::Returned(0)).unwrap();
    assert!(matches!(poll, RuntimePoll::Waiting(RuntimeBlockReason::Sleep { duration_ms: 2 })));
    scheduler.complete_dispatch(task_id, first.tick, Ok(poll));
    let waiting = find(&scheduler, task_id);
    assert!(
        matches!(waiting.state, TaskState::Waiting(WaitState::Sleeping { .. })),
        "expected waiting/sleeping state, got {:?}",
        waiting.state
    );

    assert!(scheduler.begin_tick().is_none());
    let second = scheduler.begin_tick().expect("second tick should wake and run task");
    assert_eq!(second.task_id, task_id);
    scheduler.complete_dispatch(task_id, second.tick, Ok(RuntimePoll::Exited(0)));
    let final_state = find(&scheduler, task_id);
    assert!(
        matches!(final_state.state, TaskState::Exited(0)),
        "expected exited state after wake, got {:?}",
        final_state.state
    );
}

#[test]
fn yield_syscall_roundtrip_sets_scheduler_yield_state() {
    let mut scheduler = Scheduler::new();
    let task_id = scheduler.spawn(5, &request("yielding_guest"));
    let d = scheduler.begin_task_once(task_id).expect("single run should succeed");
    let mut control = TaskRuntimeControl::default();
    control.reset_for_quantum(d.quantum_ms);
    assert_eq!(SystemCallRegistry::yield_now(&mut control), 0);
    let poll = control.finish_resume(10, GuestCallOutcome::Returned(0)).unwrap();
    scheduler.complete_dispatch(task_id, d.tick, Ok(poll));
    let task = find(&scheduler, task_id);
    assert!(
        matches!(task.state, TaskState::Yielded),
        "yield syscall should keep task runnable, got {:?}",
        task.state
    );
    assert!(scheduler.has_active_tasks());
}

#[test]
fn preemptive_scheduler_timeslices_non_yielding_guest() {
    let mut scheduler = Scheduler::new_with_mode(SchedulingMode::Preemptive { quantum_ms: 1 });
    let task_id = scheduler.spawn(9, &request("non_yielding"));
    for _ in 0..4 {
        let d = scheduler.begin_tick().expect("task stays runnable");
        assert_eq!(d.quantum_ms, 1);
        let mut control = TaskRuntimeControl::default();
        control.reset_for_quantum(d.quantum_ms);
        let poll = control.finish_resume(0, GuestCallOutcome::OutOfFuel).unwrap();
        scheduler.complete_dispatch(task_id, d.tick, Ok(poll));
    }
    let task = find(&scheduler, task_id);
    assert!(
        task.timeslices >= 4,
        "expected multiple preemptive slices, got {}; state={:?}",
        task.timeslices,
        task.state
    );
    assert!(
        matches!(task.state, TaskState::Yielded | TaskState::Ready | TaskState::Running { .. }),
        "expected task to remain runnable after out-of-fuel preemption, got {:?}",
        task.state
    );
}

#[test]
fn io_wait_is_ended_by_a_notification() {
    let mut scheduler = Scheduler::new();
    let task_id = scheduler.spawn(3, &request("reader"));
    let d = scheduler.begin_task_once(task_id).unwrap();
    scheduler.complete_dispatch(
        task_id,
        d.tick,
        Ok(RuntimePoll::Waiting(RuntimeBlockReason::Io { channel: "net".to_string() })),
    );
    scheduler.notify_io("disk");
    assert!(matches!(find(&scheduler, task_id).state, TaskState::Waiting(WaitState::Io { .. })));
    scheduler.notify_io("net");
    assert!(matches!(find(&scheduler, task_id).state, TaskState::Ready));
    assert_eq!(scheduler.begin_tick().unwrap().task_id, task_id);
}

#[test]
fn failures_and_kills_leave_the_queues() {
    let mut scheduler = Scheduler::new();
    let a = scheduler.spawn(1, &request("a"));
    let b = scheduler.spawn(2, &request("b"));
    let d = scheduler.begin_tick().unwrap();
    assert_eq!(d.task_id, a);
    scheduler.complete_dispatch(a, d.tick, Err("trap".to_string()));
    match find(&scheduler, a).state {
        TaskState::Failed(m) => assert_eq!(m, "trap"),
        other => panic!("expected failure, got {other:?}"),
    }
    assert!(scheduler.kill(b));
    assert!(!scheduler.kill(77));
    match find(&scheduler, b).state {
        TaskState::Failed(m) => assert_eq!(m, "killed by shell"),
        other => panic!("expected kill, got {other:?}"),
    }
    assert!(scheduler.begin_tick().is_none());
    assert!(!scheduler.has_active_tasks());
}
