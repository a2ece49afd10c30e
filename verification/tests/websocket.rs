use oxify::websocket::{frame_action, parse_error, FrameAction, WsFrame};
use oxify::websocket::{validate_token, WsConnectionManager};

#[test]
fn test_validate_token() {
    // Empty token should return None
    assert_eq!(validate_token(""), None);

    // Non-empty token should return Some
    let result = validate_token("test_token");
    assert!(result.is_some());
    assert_eq!(result.unwrap(), "user_test_token");
}

#[test]
fn ws_register_gives_increasing_ids() {
    let mut m = WsConnectionManager::new(5);
    let a = m.register("alice".to_string(), 10).unwrap();
    let b = m.register("bob".to_string(), 11).unwrap();
    assert_eq!(a.id, 1);
    assert_eq!(b.id, 2);
    assert_eq!(a.user_id, "alice");
    assert_eq!(b.connected_at, 11);
    assert_eq!(m.connection_count(), 2);
}

#[test]
fn ws_per_user_limit() {
    let mut m = WsConnectionManager::new(2);
    assert!(m.register("alice".to_string(), 0).is_some());
    assert!(m.register("alice".to_string(), 0).is_some());
    assert!(m.register("alice".to_string(), 0).is_none());
    assert!(m.register("bob".to_string(), 0).is_some());
    assert_eq!(m.connection_count(), 3);
    assert_eq!(m.user_connections("alice").len(), 2);
}

#[test]
fn ws_unregister_frees_a_slot() {
    let mut m = WsConnectionManager::new(1);
    let c = m.register("alice".to_string(), 0).unwrap();
    assert!(m.register("alice".to_string(), 0).is_none());
    m.unregister(c.id);
    assert_eq!(m.connection_count(), 0);
    assert!(m.user_connections("alice").is_empty());
    let d = m.register("alice".to_string(), 5).unwrap();
    assert_eq!(d.id, 2);
    m.unregister(999);
    assert_eq!(m.connection_count(), 1);
}

#[test]
fn ws_frame_actions() {
    assert_eq!(frame_action(WsFrame::Text { parsed: true, is_ping: true }), FrameAction::PongToUser);
    assert_eq!(frame_action(WsFrame::Text { parsed: true, is_ping: false }), FrameAction::Continue);
    assert_eq!(frame_action(WsFrame::Text { parsed: false, is_ping: false }), FrameAction::ParseErrorToUser);
    assert_eq!(frame_action(WsFrame::Ping), FrameAction::PongToConnection);
    assert_eq!(frame_action(WsFrame::Binary), FrameAction::Continue);
    assert_eq!(frame_action(WsFrame::Close), FrameAction::Stop);
    assert_eq!(parse_error(), ("PARSE_ERROR", "Invalid message format"));
}
