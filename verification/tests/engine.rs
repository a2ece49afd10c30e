use oxify::dag::{
    compute_execution_levels, dependencies_satisfied, topological_sort, Edge, EngineError,
    WorkflowGraph,
};
use oxify::engine::{
    after_failure, retries_exhausted_message, RetryStep,
    wait_step, wait_timeout_message, EngineBuilder, HumanTaskStatus, WaitStep,
    level_chunk_size, split_level, CheckpointFrequency, ExecutionConfig, ExecutionControl,
    LevelGate,
};

#[test]
fn test_topological_sort() {
    let start_id = uuid::Uuid::new_v4().as_u128();
    let end_id = uuid::Uuid::new_v4().as_u128();
    let graph = WorkflowGraph {
        nodes: vec![start_id, end_id],
        edges: vec![Edge { from: start_id, to: end_id }],
    };

    let sorted = topological_sort(&graph).unwrap();

    assert_eq!(sorted.len(), 2);
    assert_eq!(sorted[0], start_id);
    assert_eq!(sorted[1], end_id);
}

#[test]
fn test_execution_config_builder() {
    let config = ExecutionConfig::new()
        .with_events()
        .with_checkpoint_frequency(CheckpointFrequency::EveryLevel)
        .with_node_timeout(5000)
        .with_max_concurrent(4)
        .with_continue_on_error();

    assert!(config.emit_events);
    assert_eq!(config.checkpoint_frequency, CheckpointFrequency::EveryLevel);
    assert_eq!(config.node_timeout_ms, Some(5000));
    assert_eq!(config.max_concurrent_nodes, Some(4));
    assert!(config.continue_on_error);
}

#[test]
fn test_checkpoint_frequency() {
    assert_eq!(CheckpointFrequency::default(), CheckpointFrequency::Never);

    // Test different frequency patterns
    let freq = CheckpointFrequency::EveryNLevels(3);
    match freq {
        CheckpointFrequency::EveryNLevels(n) => assert_eq!(n, 3),
        _ => panic!("Wrong variant"),
    }

    let freq = CheckpointFrequency::EveryNNodes(10);
    match freq {
        CheckpointFrequency::EveryNNodes(n) => assert_eq!(n, 10),
        _ => panic!("Wrong variant"),
    }
}

#[test]
fn test_execution_cancellation_state() {
    let mut engine = ExecutionControl::new();
    let execution_id1 = uuid::Uuid::new_v4().as_u128();
    let execution_id2 = uuid::Uuid::new_v4().as_u128();

    // Initially not cancelled
    assert!(!engine.is_cancelled(execution_id1));
    assert!(!engine.is_cancelled(execution_id2));

    // Cancel first execution
    engine.cancel_execution(execution_id1);
    assert!(engine.is_cancelled(execution_id1));
    assert!(!engine.is_cancelled(execution_id2)); // Other execution unaffected

    // Cancel second execution
    engine.cancel_execution(execution_id2);
    assert!(engine.is_cancelled(execution_id1));
    assert!(engine.is_cancelled(execution_id2));

    // Clear first cancellation
    engine.clear_cancellation(execution_id1);
    assert!(!engine.is_cancelled(execution_id1));
    assert!(engine.is_cancelled(execution_id2)); // Second still cancelled
}

#[test]
fn test_cancel_execution_methods() {
    let mut engine = ExecutionControl::new();
    let execution_id = uuid::Uuid::new_v4().as_u128();

    // Initially not cancelled
    assert!(!engine.is_cancelled(execution_id));

    // Cancel execution
    engine.cancel_execution(execution_id);
    assert!(engine.is_cancelled(execution_id));

    // Clear cancellation
    engine.clear_cancellation(execution_id);
    assert!(!engine.is_cancelled(execution_id));
}

#[test]
fn engine_topological_sort_detects_cycle() {
    let graph = WorkflowGraph {
        nodes: vec![1, 2, 3],
        edges: vec![Edge { from: 1, to: 2 }, Edge { from: 2, to: 3 }, Edge { from: 3, to: 2 }],
    };
    assert!(matches!(topological_sort(&graph), Err(EngineError::CycleDetected)));
}

#[test]
fn engine_topological_sort_respects_every_edge() {
    let graph = WorkflowGraph {
        nodes: vec![5, 4, 3, 2, 1],
        edges: vec![
            Edge { from: 1, to: 2 },
            Edge { from: 1, to: 3 },
            Edge { from: 3, to: 4 },
            Edge { from: 2, to: 4 },
            Edge { from: 4, to: 5 },
        ],
    };
    let order = topological_sort(&graph).unwrap();
    assert_eq!(order.len(), 5);
    let pos = |x: u128| order.iter().position(|y| *y == x).unwrap();
    for e in &graph.edges {
        assert!(pos(e.from) < pos(e.to));
    }
}

#[test]
fn engine_should_checkpoint() {
    assert!(!CheckpointFrequency::Never.should_checkpoint(0, 0));
    assert!(CheckpointFrequency::EveryLevel.should_checkpoint(3, 7));
    assert!(CheckpointFrequency::EveryNLevels(2).should_checkpoint(1, 0));
    assert!(!CheckpointFrequency::EveryNLevels(2).should_checkpoint(2, 0));
    assert!(CheckpointFrequency::EveryNNodes(5).should_checkpoint(0, 10));
    assert!(!CheckpointFrequency::EveryNNodes(5).should_checkpoint(0, 11));
}

#[test]
fn engine_level_chunks() {
    assert_eq!(level_chunk_size(10, Some(4), None), 4);
    assert_eq!(level_chunk_size(3, None, None), 3);
    let chunks = split_level(&vec![1, 2, 3, 4, 5], 2);
    assert_eq!(chunks, vec![vec![1, 2], vec![3, 4], vec![5]]);
}

#[test]
fn engine_pause_and_gate() {
    let mut c = ExecutionControl::new();
    assert_eq!(c.gate(7), LevelGate::Run);
    c.pause_execution(7);
    assert!(c.is_paused(7));
    assert_eq!(c.gate(7), LevelGate::Pause);
    c.resume_execution(7);
    assert!(!c.is_paused(7));
    c.cancel_execution(7);
    assert_eq!(c.gate(7), LevelGate::Cancel);
    assert!(!c.is_cancelled(7));
}

#[test]
fn engine_execution_levels() {
    // 1 -> 2 -> 4, 1 -> 3, 5 alone: levels {1, 5}, {2, 3}, {4}.
    let graph = WorkflowGraph {
        nodes: vec![1, 2, 3, 4, 5],
        edges: vec![Edge { from: 1, to: 2 }, Edge { from: 1, to: 3 }, Edge { from: 2, to: 4 }],
    };
    let mut levels = compute_execution_levels(&graph).unwrap();
    for l in levels.iter_mut() {
        l.sort();
    }
    assert_eq!(levels, vec![vec![1, 5], vec![2, 3], vec![4]]);
}

#[test]
fn engine_execution_levels_longest_path() {
    // 1 -> 3 directly and through 2: 3 waits for 2.
    let graph = WorkflowGraph {
        nodes: vec![3, 2, 1],
        edges: vec![Edge { from: 1, to: 3 }, Edge { from: 1, to: 2 }, Edge { from: 2, to: 3 }],
    };
    assert_eq!(compute_execution_levels(&graph).unwrap(), vec![vec![1], vec![2], vec![3]]);
    let cyclic = WorkflowGraph { nodes: vec![1, 2], edges: vec![Edge { from: 1, to: 2 }, Edge { from: 2, to: 1 }] };
    assert!(matches!(compute_execution_levels(&cyclic), Err(EngineError::CycleDetected)));
    let empty = WorkflowGraph { nodes: vec![], edges: vec![] };
    assert!(compute_execution_levels(&empty).unwrap().is_empty());
}

#[derive(Default, Debug)]
struct Metrics {
    executions: u64,
}

#[test]
fn test_engine_builder() {
    type Builder = EngineBuilder<String, String, std::sync::Arc<String>, std::sync::Arc<u32>, std::sync::Arc<Metrics>>;
    // Test basic builder
    let engine = Builder::new().build();
    assert!(engine.event_bus().is_none());
    assert!(engine.metrics().is_none());

    // Test builder with all options
    let checkpoint_store = std::sync::Arc::new("store".to_string());
    let event_bus = std::sync::Arc::new(100u32);
    let metrics = std::sync::Arc::new(Metrics::default());

    let engine = Builder::new()
        .with_checkpoint_store(checkpoint_store)
        .with_event_bus(event_bus.clone())
        .with_shared_metrics(metrics.clone())
        .build();

    assert!(engine.event_bus().is_some());
    assert!(engine.metrics().is_some());

    // Test with_metrics creates new instance
    let engine = Builder::new().with_metrics().build();
    assert!(engine.metrics().is_some());
    assert_eq!(engine.metrics().unwrap().executions, 0);
}

#[derive(Clone, Debug, PartialEq, Default)]
struct ResourceConfig {
    policy: String,
    min_concurrency: usize,
    max_concurrency: usize,
}

#[test]
fn test_execution_config_with_resource_monitoring() {
    let res_config = ResourceConfig { policy: "Balanced".to_string(), min_concurrency: 1, max_concurrency: 10 };
    let exec_config = ExecutionConfig::new().with_resource_monitoring(res_config.clone());

    assert!(exec_config.resource_config.is_some());
    let stored_config = exec_config.resource_config.unwrap();
    assert_eq!(stored_config.policy, res_config.policy);
    assert_eq!(stored_config.min_concurrency, res_config.min_concurrency);
}

#[test]
fn engine_waiting_for_a_human() {
    assert_eq!(wait_step(HumanTaskStatus::Approved, 0, None), WaitStep::Granted);
    assert_eq!(wait_step(HumanTaskStatus::Rejected, 0, None), WaitStep::Refused);
    assert_eq!(wait_step(HumanTaskStatus::TimedOut, 0, None), WaitStep::AlreadyTimedOut);
    assert_eq!(wait_step(HumanTaskStatus::Pending, 3599, None), WaitStep::Wait);
    assert_eq!(wait_step(HumanTaskStatus::Pending, 3600, None), WaitStep::GiveUp);
    assert_eq!(wait_step(HumanTaskStatus::Pending, 10, Some(10)), WaitStep::GiveUp);
    assert_eq!(wait_timeout_message(false, 3600), "Approval timed out after 3600 seconds");
    assert_eq!(wait_timeout_message(true, 5), "Form submission timed out after 5 seconds");
}

#[test]
fn engine_levels_in_order_respect_edges() {
    let graph = WorkflowGraph {
        nodes: vec![6, 5, 4, 3, 2, 1],
        edges: vec![
            Edge { from: 1, to: 4 },
            Edge { from: 2, to: 4 },
            Edge { from: 4, to: 5 },
            Edge { from: 3, to: 5 },
            Edge { from: 5, to: 6 },
            Edge { from: 1, to: 6 },
        ],
    };
    let order: Vec<u128> = compute_execution_levels(&graph).unwrap().into_iter().flatten().collect();
    assert_eq!(order.len(), 6);
    let pos = |x: u128| order.iter().position(|y| *y == x).unwrap();
    for e in &graph.edges {
        assert!(pos(e.from) < pos(e.to));
    }
}

#[test]
fn engine_retry_steps() {
    assert_eq!(after_failure(0, 0), RetryStep::GiveUp { retry_count: 0 });
    assert_eq!(after_failure(0, 2), RetryStep::Retry { failures: 1 });
    assert_eq!(after_failure(1, 2), RetryStep::Retry { failures: 2 });
    assert_eq!(after_failure(2, 2), RetryStep::GiveUp { retry_count: 2 });
    assert_eq!(retries_exhausted_message(3, "boom"), "Failed after 3 retries: boom");
}

#[test]
fn engine_dependencies_satisfied() {
    let edges = vec![Edge { from: 1, to: 3 }, Edge { from: 2, to: 3 }, Edge { from: 3, to: 4 }];
    assert!(dependencies_satisfied(3, &edges, &vec![1, 2]));
    assert!(!dependencies_satisfied(3, &edges, &vec![1]));
    assert!(dependencies_satisfied(1, &edges, &vec![]));
}
