use oxify::checkpoint::ExecutionCheckpoint;

#[derive(Debug, Clone, PartialEq)]
struct Context {
    workflow_id: u128,
}

#[derive(Debug, Clone, PartialEq)]
struct NodeResult {
    status: String,
    duration_ms: Option<u64>,
}

fn new_id() -> u128 {
    uuid::Uuid::new_v4().as_u128()
}

#[test]
fn test_checkpoint_new() {
    let workflow_id = new_id();
    let execution_id = new_id();
    let context = Context { workflow_id };
    let completed_nodes = vec![new_id(), new_id()];
    let current_level = 2;
    let reason = "pause_requested".to_string();

    let checkpoint: ExecutionCheckpoint<Context, NodeResult> = ExecutionCheckpoint::new(
        workflow_id,
        execution_id,
        context.clone(),
        completed_nodes.clone(),
        current_level,
        reason.clone(),
    );

    assert_eq!(checkpoint.workflow_id, workflow_id);
    assert_eq!(checkpoint.execution_id, execution_id);
    assert_eq!(checkpoint.current_level, current_level);
    assert_eq!(checkpoint.reason, reason);
    assert_eq!(checkpoint.completed_nodes, completed_nodes);
    assert_eq!(checkpoint.context, context);
    assert!(!checkpoint.paused);
    assert!(checkpoint.node_results.is_empty());
}

#[test]
fn test_checkpoint_add_node_result() {
    let workflow_id = new_id();
    let execution_id = new_id();
    let context = Context { workflow_id };

    let mut checkpoint = ExecutionCheckpoint::new(
        workflow_id,
        execution_id,
        context,
        vec![],
        0,
        "test".to_string(),
    );

    let node_id = new_id();
    let result = NodeResult { status: "success".to_string(), duration_ms: None };

    checkpoint.add_node_result(node_id, result.clone());

    assert_eq!(checkpoint.node_results.len(), 1);
    assert!(checkpoint.node_results.contains_key(&node_id));
    let stored_result = checkpoint.node_results.get(&node_id).unwrap();
    assert_eq!(stored_result.status, "success");
}

#[test]
fn test_checkpoint_is_node_completed() {
    let workflow_id = new_id();
    let execution_id = new_id();
    let context = Context { workflow_id };

    let node1 = new_id();
    let node2 = new_id();
    let node3 = new_id();

    let checkpoint: ExecutionCheckpoint<Context, NodeResult> = ExecutionCheckpoint::new(
        workflow_id,
        execution_id,
        context,
        vec![node1, node2],
        1,
        "test".to_string(),
    );

    assert!(checkpoint.is_node_completed(node1));
    assert!(checkpoint.is_node_completed(node2));
    assert!(!checkpoint.is_node_completed(node3));
}

#[test]
fn test_checkpoint_multiple_node_results() {
    let workflow_id = new_id();
    let execution_id = new_id();
    let context = Context { workflow_id };

    let mut checkpoint = ExecutionCheckpoint::new(
        workflow_id,
        execution_id,
        context,
        vec![],
        0,
        "test".to_string(),
    );

    // Add multiple node results
    let mut node_ids = Vec::new();
    for i in 1..=5u64 {
        let node_id = new_id();
        node_ids.push((node_id, i));
        let result = NodeResult { status: format!("value {}", i), duration_ms: Some(i * 10) };
        checkpoint.add_node_result(node_id, result);
    }

    assert_eq!(checkpoint.node_results.len(), 5);

    // Verify all results are stored correctly
    for (node_id, i) in node_ids {
        let stored = checkpoint.node_results.get(&node_id).unwrap();
        assert_eq!(stored.status, format!("value {}", i));
        assert_eq!(stored.duration_ms, Some(i * 10));
    }
}

#[test]
fn checkpoint_later_result_replaces_earlier() {
    let mut checkpoint: ExecutionCheckpoint<(), NodeResult> =
        ExecutionCheckpoint::new(1, 2, (), vec![], 0, "r".to_string());
    checkpoint.add_node_result(9, NodeResult { status: "a".to_string(), duration_ms: None });
    checkpoint.add_node_result(9, NodeResult { status: "b".to_string(), duration_ms: None });
    assert_eq!(checkpoint.node_results.len(), 1);
    assert_eq!(checkpoint.node_results[&9].status, "b");
}
