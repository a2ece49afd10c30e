use oxify::dag::EngineError;
use oxify::engine::{CheckpointFrequency, ExecutionConfig, HumanTaskStatus, LevelGate, WaitStep};
use oxify::node_step::{
    node_step, retry_step, AttemptOutcome, NodeAction, NodeEvent, NodeSpec, RetryAction,
    RetryState, ServiceKind,
};
use oxify::nodes::{ParallelOutcome, ParallelStrategy};
use oxify::run::{
    run_notices, run_plan, run_step, FailureReason, RunAction, RunEvent, RunFailure, RunNotice, RunPhase,
    RunPlan, RunState,
};
use oxify::templating::{SwitchCase, SwitchOutcome};

fn plan(continue_on_error: bool, frequency: CheckpointFrequency) -> RunPlan {
    RunPlan {
        levels: vec![vec![1, 2, 3], vec![4]],
        max_concurrent: Some(2),
        continue_on_error,
        checkpoint_frequency: frequency,
        checkpointing: true,
        emit_events: true,
        total_nodes: 4,
    }
}

fn gate_run() -> RunEvent {
    RunEvent::Gate { gate: LevelGate::Run, recommended: None }
}

#[test]
fn run_walks_levels_in_chunks_with_checkpoints() {
    let p = plan(false, CheckpointFrequency::EveryLevel);
    let s = RunState::start();
    let (s, a) = run_step(&p, &s, RunEvent::Start);
    assert!(matches!(a, RunAction::AwaitGate { level: 0 }));
    let (s, a) = run_step(&p, &s, gate_run());
    assert!(matches!(a, RunAction::RunChunk { ref nodes } if *nodes == vec![1, 2]));
    let (s, a) = run_step(&p, &s, RunEvent::ChunkDone { ok: vec![true, true] });
    assert!(matches!(a, RunAction::RunChunk { ref nodes } if *nodes == vec![3]));
    let (s, a) = run_step(&p, &s, RunEvent::ChunkDone { ok: vec![true] });
    assert!(matches!(a, RunAction::Checkpoint { level: 1, ref completed } if *completed == vec![1, 2, 3]));
    let (s, a) = run_step(&p, &s, RunEvent::Checkpointed);
    assert!(matches!(a, RunAction::AwaitGate { level: 1 }));
    let (s, a) = run_step(&p, &s, RunEvent::Gate { gate: LevelGate::Run, recommended: Some(4) });
    assert!(matches!(a, RunAction::RunChunk { ref nodes } if *nodes == vec![4]));
    let (s, a) = run_step(&p, &s, RunEvent::ChunkDone { ok: vec![true] });
    assert!(matches!(a, RunAction::Checkpoint { level: 2, .. }));
    let (s, a) = run_step(&p, &s, RunEvent::Checkpointed);
    match a {
        RunAction::Complete { results } => {
            assert_eq!(results, vec![(1, true), (2, true), (3, true), (4, true)]);
        },
        _ => panic!("the run should complete"),
    }
    assert_eq!(s.phase, RunPhase::Finished);
}

#[test]
fn run_cancelled_before_a_level() {
    let p = plan(false, CheckpointFrequency::Never);
    let (s, _) = run_step(&p, &RunState::start(), RunEvent::Start);
    let (s, a) = run_step(&p, &s, RunEvent::Gate { gate: LevelGate::Cancel, recommended: None });
    assert!(matches!(a, RunAction::Fail(RunFailure::ExecutionCancelled)));
    assert_eq!(s.phase, RunPhase::Finished);
}

#[test]
fn run_paused_saves_what_finished() {
    let p = plan(false, CheckpointFrequency::Never);
    let (s, _) = run_step(&p, &RunState::start(), RunEvent::Start);
    let (s, _) = run_step(&p, &s, gate_run());
    let (s, _) = run_step(&p, &s, RunEvent::ChunkDone { ok: vec![true, true] });
    let (s, a) = run_step(&p, &s, RunEvent::ChunkDone { ok: vec![true] });
    assert!(matches!(a, RunAction::AwaitGate { level: 1 }));
    let (_, a) = run_step(&p, &s, RunEvent::Gate { gate: LevelGate::Pause, recommended: None });
    match a {
        RunAction::Fail(RunFailure::ExecutionPaused { save_checkpoint, level, completed }) => {
            assert!(save_checkpoint);
            assert_eq!(level, 1);
            assert_eq!(completed, vec![1, 2, 3]);
        },
        _ => panic!("the run should pause"),
    }
}

#[test]
fn run_node_failure_stops_unless_errors_continue() {
    let p = plan(false, CheckpointFrequency::Never);
    let (s, _) = run_step(&p, &RunState::start(), RunEvent::Start);
    let (s, _) = run_step(&p, &s, gate_run());
    let (_, a) = run_step(&p, &s, RunEvent::ChunkDone { ok: vec![true, false] });
    assert!(matches!(a, RunAction::Fail(RunFailure::NodeFailed(2))));

    let p = plan(true, CheckpointFrequency::Never);
    let (s, _) = run_step(&p, &RunState::start(), RunEvent::Start);
    let (s, _) = run_step(&p, &s, gate_run());
    let (s, _) = run_step(&p, &s, RunEvent::ChunkDone { ok: vec![true, false] });
    assert_eq!(s.results, vec![(1, true), (2, false)]);
    assert_eq!(s.completed, vec![1, 2]);
}

#[test]
fn run_ignores_events_out_of_turn() {
    let p = plan(false, CheckpointFrequency::Never);
    let (s, a) = run_step(&p, &RunState::start(), RunEvent::Checkpointed);
    assert!(matches!(a, RunAction::Ignored));
    assert_eq!(s.phase, RunPhase::Begin);
    let (s, _) = run_step(&p, &s, RunEvent::Start);
    let (s, _) = run_step(&p, &s, gate_run());
    // A report for a chunk of the wrong size changes nothing.
    let (s, a) = run_step(&p, &s, RunEvent::ChunkDone { ok: vec![true] });
    assert!(matches!(a, RunAction::Ignored));
    assert_eq!(s.phase, RunPhase::Running);
}

#[test]
fn run_of_no_levels_completes_at_once() {
    let p = RunPlan {
        levels: vec![],
        max_concurrent: None,
        continue_on_error: false,
        checkpoint_frequency: CheckpointFrequency::Never,
        checkpointing: false,
        emit_events: false,
        total_nodes: 0,
    };
    let (_, a) = run_step(&p, &RunState::start(), RunEvent::Start);
    assert!(matches!(a, RunAction::Complete { ref results } if results.is_empty()));
}

fn vars() -> Vec<(String, String)> {
    vec![("name".to_string(), "Ada".to_string())]
}

#[test]
fn node_start_end_pass_through() {
    assert!(matches!(node_step(&NodeSpec::Start, &vars(), NodeEvent::Begin), NodeAction::Pass));
    assert!(matches!(node_step(&NodeSpec::End, &vars(), NodeEvent::Begin), NodeAction::Pass));
    assert!(matches!(
        node_step(&NodeSpec::End, &vars(), NodeEvent::ServiceDone(Ok("x".to_string()))),
        NodeAction::Ignored
    ));
}

#[test]
fn node_service_resolves_its_input() {
    let n = NodeSpec::Service { kind: ServiceKind::Llm, input: Some("Hello {{name}}".to_string()) };
    match node_step(&n, &vars(), NodeEvent::Begin) {
        NodeAction::CallService { kind, input } => {
            assert_eq!(kind, ServiceKind::Llm);
            assert_eq!(input.as_deref(), Some("Hello Ada"));
        },
        _ => panic!("the service should be called"),
    }
    let n = NodeSpec::Service { kind: ServiceKind::Retriever, input: Some("{{missing}}".to_string()) };
    assert!(matches!(
        node_step(&n, &vars(), NodeEvent::Begin),
        NodeAction::Error(EngineError::VariableNotFound(ref v)) if v == "missing"
    ));
    let n = NodeSpec::Service { kind: ServiceKind::Code, input: None };
    assert!(matches!(
        node_step(&n, &vars(), NodeEvent::ServiceDone(Err("boom".to_string()))),
        NodeAction::Fail(ref m) if m == "boom"
    ));
    assert!(matches!(
        node_step(&n, &vars(), NodeEvent::ServiceDone(Ok("42".to_string()))),
        NodeAction::Succeed(ref m) if m == "42"
    ));
}

#[test]
fn node_switch_takes_the_matching_case() {
    let n = NodeSpec::Switch {
        switch_on: "{{name}}".to_string(),
        cases: vec![
            SwitchCase { match_value: "Bob".to_string(), action: "b".to_string() },
            SwitchCase { match_value: "Ada".to_string(), action: "hi {{name}}".to_string() },
        ],
        default_action: None,
    };
    match node_step(&n, &vars(), NodeEvent::Begin) {
        NodeAction::Switched(Ok(SwitchOutcome::Matched { matched_case, result })) => {
            assert_eq!(matched_case, "Ada");
            assert_eq!(result, "hi Ada");
        },
        _ => panic!("the second case should match"),
    }
}

#[test]
fn node_parallel_runs_then_gathers() {
    let tasks = vec![("a".to_string(), "{{name}}".to_string())];
    let n = NodeSpec::Parallel { tasks: tasks.clone(), strategy: ParallelStrategy::WaitAll };
    assert!(matches!(node_step(&n, &vars(), NodeEvent::Begin), NodeAction::RunTasks { tasks: ref t } if *t == tasks));
    let done = vec![("a".to_string(), Err::<String, String>("x".to_string()))];
    match node_step(&n, &vars(), NodeEvent::TasksDone(done)) {
        NodeAction::Gathered(ParallelOutcome::Failed(m)) => assert_eq!(m, "Parallel task failed: x"),
        _ => panic!("the node should fail"),
    }
}

#[test]
fn node_approval_waits_then_decides() {
    let n = NodeSpec::Approval { timeout_secs: Some(10) };
    assert!(matches!(node_step(&n, &vars(), NodeEvent::Begin), NodeAction::Poll));
    let ev = NodeEvent::Polled { status: HumanTaskStatus::Pending, elapsed_secs: 3 };
    assert!(matches!(node_step(&n, &vars(), ev), NodeAction::Waited(WaitStep::Wait)));
    let ev = NodeEvent::Polled { status: HumanTaskStatus::Pending, elapsed_secs: 10 };
    assert!(matches!(node_step(&n, &vars(), ev), NodeAction::Waited(WaitStep::GiveUp)));
    let f = NodeSpec::Form { timeout_secs: None };
    let ev = NodeEvent::Polled { status: HumanTaskStatus::Approved, elapsed_secs: 0 };
    assert!(matches!(node_step(&f, &vars(), ev), NodeAction::Waited(WaitStep::Granted)));
}

#[test]
fn retry_counts_failures_then_gives_up() {
    let s = RetryState { failures: 0 };
    let (s, a) = retry_step(s, AttemptOutcome::Failed("e1".to_string()), 2);
    assert!(matches!(a, RetryAction::Retry { attempt: 1 }));
    let (s, a) = retry_step(s, AttemptOutcome::Failed("e2".to_string()), 2);
    assert!(matches!(a, RetryAction::Retry { attempt: 2 }));
    let (_, a) = retry_step(s, AttemptOutcome::Failed("e3".to_string()), 2);
    match a {
        RetryAction::GiveUp { retry_count, message } => {
            assert_eq!(retry_count, 2);
            assert_eq!(message, "Failed after 2 retries: e3");
        },
        _ => panic!("the retries should be exhausted"),
    }
    let (_, a) = retry_step(RetryState { failures: 1 }, AttemptOutcome::Succeeded, 2);
    assert!(matches!(a, RetryAction::Done { retry_count: 1 }));
    let (_, a) = retry_step(RetryState { failures: 0 }, AttemptOutcome::Failed("e".to_string()), 0);
    assert!(matches!(a, RetryAction::GiveUp { retry_count: 0, .. }));
}

#[test]
fn run_cancel_publishes_execution_cancelled() {
    let p = plan(false, CheckpointFrequency::Never);
    let s0 = RunState::start();
    let (s, a) = run_step(&p, &s0, RunEvent::Start);
    let n = run_notices(&p, &s0, &RunEvent::Start, &a);
    assert!(matches!(n.as_slice(), [RunNotice::WorkflowStarted]));
    let ev = RunEvent::Gate { gate: LevelGate::Cancel, recommended: None };
    let (_, a) = run_step(&p, &s, RunEvent::Gate { gate: LevelGate::Cancel, recommended: None });
    let n = run_notices(&p, &s, &ev, &a);
    assert!(matches!(n.as_slice(), [RunNotice::WorkflowFailed(FailureReason::ExecutionCancelled)]));
    let mut quiet = plan(false, CheckpointFrequency::Never);
    quiet.emit_events = false;
    assert!(run_notices(&quiet, &s, &ev, &a).is_empty());
}

#[test]
fn run_publishes_level_and_completion_events() {
    let p = plan(false, CheckpointFrequency::Never);
    let (s, _) = run_step(&p, &RunState::start(), RunEvent::Start);
    let (s1, a) = run_step(&p, &s, gate_run());
    let n = run_notices(&p, &s, &gate_run(), &a);
    assert!(matches!(n.as_slice(), [RunNotice::LevelStarted { level: 0, nodes: 3 }]));
    let ev = RunEvent::ChunkDone { ok: vec![true, true] };
    let (s2, a) = run_step(&p, &s1, RunEvent::ChunkDone { ok: vec![true, true] });
    assert!(run_notices(&p, &s1, &ev, &a).is_empty());
    let ev = RunEvent::ChunkDone { ok: vec![true] };
    let (s3, a) = run_step(&p, &s2, RunEvent::ChunkDone { ok: vec![true] });
    let n = run_notices(&p, &s2, &ev, &a);
    assert!(matches!(
        n.as_slice(),
        [
            RunNotice::LevelCompleted { level: 0 },
            RunNotice::Progress { completed: 3, total_nodes: 4, levels_done: 1, total_levels: 2 }
        ]
    ));
    let (s4, _) = run_step(&p, &s3, gate_run());
    let ev = RunEvent::ChunkDone { ok: vec![true] };
    let (_, a) = run_step(&p, &s4, RunEvent::ChunkDone { ok: vec![true] });
    let n = run_notices(&p, &s4, &ev, &a);
    assert!(matches!(
        n.as_slice(),
        [
            RunNotice::LevelCompleted { level: 1 },
            RunNotice::Progress { completed: 4, total_nodes: 4, levels_done: 2, total_levels: 2 },
            RunNotice::WorkflowCompleted { completed: 4 }
        ]
    ));
}

#[test]
fn run_plan_follows_the_config() {
    let config = ExecutionConfig::new().with_events().with_max_concurrent(3).with_continue_on_error();
    let p = run_plan(&config, vec![vec![7]], true, 1);
    assert!(p.emit_events);
    assert_eq!(p.max_concurrent, Some(3));
    assert!(p.continue_on_error);
    assert!(p.checkpointing);
    assert_eq!(p.total_nodes, 1);
    assert_eq!(p.levels, vec![vec![7]]);
    assert!(!run_plan(&ExecutionConfig::new(), vec![], false, 0).emit_events);
}
