use oxify::sse::{
    ExecutionStreamState, FetchOutcome, MultiStreamQuery, SseAction, SseEventType, SseQuery,
    SseStreamState,
};

fn query(events: Option<&str>) -> SseQuery {
    SseQuery { events: events.map(|e| e.to_string()), heartbeat: true, heartbeat_interval: 15 }
}

#[test]
fn sse_event_filter() {
    let q = query(Some("progress, error"));
    assert!(q.is_event_enabled(SseEventType::Progress));
    assert!(q.is_event_enabled(SseEventType::Error));
    assert!(!q.is_event_enabled(SseEventType::StateChange));
    assert!(query(None).is_event_enabled(SseEventType::Heartbeat));
    assert_eq!(SseEventType::NodeComplete.as_str(), "node_complete");
}

#[test]
fn sse_heartbeat_after_interval() {
    let q = query(None);
    let mut s = SseStreamState::new(0, 0);
    assert_eq!(s.poll(&q, 1_000_000), None);
    assert_eq!(s.poll(&q, 15_000_000), Some(SseAction::Heartbeat { id: 1 }));
    assert_eq!(s.last_heartbeat, 15_000_000);
    assert_eq!(s.poll(&q, 16_000_000), None);
}

#[test]
fn sse_state_changes_then_completes() {
    let q = query(None);
    let mut s = SseStreamState::new(5, 0);
    let a = s.on_fetch(&q, FetchOutcome::Found { state: "Running".to_string(), terminal: false });
    assert_eq!(a, SseAction::Update { kind: SseEventType::StateChange, id: 6 });
    let a = s.on_fetch(&q, FetchOutcome::Found { state: "Running".to_string(), terminal: false });
    assert_eq!(a, SseAction::Update { kind: SseEventType::Progress, id: 7 });
    let a = s.on_fetch(&q, FetchOutcome::Found { state: "Completed".to_string(), terminal: true });
    assert_eq!(a, SseAction::Update { kind: SseEventType::StateChange, id: 8 });
    assert!(s.completed);
    assert_eq!(s.poll(&q, 0), Some(SseAction::Stop));
}

#[test]
fn sse_not_found_is_an_error_event() {
    let mut s = SseStreamState::new(0, 0);
    assert_eq!(s.on_fetch(&query(None), FetchOutcome::NotFound), SseAction::ErrorEvent { id: 1 });
    assert!(s.completed);
    let mut s = SseStreamState::new(0, 0);
    assert_eq!(s.on_fetch(&query(Some("progress")), FetchOutcome::Failed), SseAction::Stop);
}

#[test]
fn sse_multi_stream_ids() {
    let q = MultiStreamQuery {
        ids: "67e55044-10b1-426f-9247-bb680e5fe0c8, not-a-uuid ,00000000-0000-0000-0000-000000000001"
            .to_string(),
    };
    assert_eq!(q.execution_ids(), vec![0x67e5504410b1426f9247bb680e5fe0c8u128, 1]);
}

#[test]
fn sse_simulated_progress() {
    let mut s = ExecutionStreamState::new(3);
    let u = s.advance().unwrap();
    assert_eq!((u.progress, u.completed, u.node), (5, false, "start"));
    let mut last = None;
    while let Some(u) = s.advance() {
        last = Some(u);
    }
    let u = last.unwrap();
    assert_eq!((u.progress, u.completed, u.node), (100, true, "end"));
    assert!(s.advance().is_none());
}

#[test]
fn sse_filtered_finished_state_still_ends_stream() {
    let q = query(Some("progress"));
    let mut s = SseStreamState::new(0, 0);
    let a = s.on_fetch(&q, FetchOutcome::Found { state: "Running".to_string(), terminal: false });
    assert_eq!(a, SseAction::Filtered);
    assert!(!s.completed);
    let a = s.on_fetch(&q, FetchOutcome::Found { state: "Running".to_string(), terminal: false });
    assert_eq!(a, SseAction::Update { kind: SseEventType::Progress, id: 2 });
    let a = s.on_fetch(&q, FetchOutcome::Found { state: "Completed".to_string(), terminal: true });
    assert_eq!(a, SseAction::Filtered);
    assert!(s.completed);
    assert_eq!(s.poll(&q, 0), Some(SseAction::Stop));
}
