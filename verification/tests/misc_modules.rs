use oxify::text::{join, lines};
use oxify::mcp_web::page_text;
use oxify::authz_stats::BloomStatsTracker;
use oxify::comm::CommError;
use oxify::llm::{classify_status, gemini_answer_text, parse_u64, stream_data_payloads, LlmError, StatusClass};
use oxify::mcp::McpError;
use oxify::mcp_web::{plan_web_tool, truncate_body, web_tool_names, WebRequest, WebToolArgs};

#[test]
fn bloom_counters() {
    let mut t = BloomStatsTracker::new();
    t.record_definite_negative();
    t.record_potential_positive();
    t.record_potential_positive();
    t.record_true_positive();
    t.record_false_positive();
    let s = t.get_stats();
    assert_eq!(
        (s.definite_negatives, s.potential_positives, s.true_positives, s.false_positives),
        (1, 2, 1, 1)
    );
}

#[test]
fn comm_error_messages() {
    assert_eq!(CommError::Http("503".to_string()).message(), "HTTP error: 503");
    assert_eq!(CommError::Auth("denied".to_string()).message(), "auth error: denied");
    assert_eq!(CommError::Provider("x".to_string()).message(), "provider error: x");
}

fn args(url: Option<&str>) -> WebToolArgs {
    WebToolArgs { url: url.map(|u| u.to_string()), body: None, content_type: None, selector: None }
}

#[test]
fn web_tool_planning() {
    assert_eq!(web_tool_names(), vec!["http_get", "http_post", "web_scrape", "web_screenshot"]);
    match plan_web_tool("http_get", &args(Some("http://x"))) {
        Ok(WebRequest::Get { url }) => assert_eq!(url, "http://x"),
        _ => panic!("expected Get"),
    }
    match plan_web_tool("http_post", &args(Some("http://x"))) {
        Ok(WebRequest::Post { body, content_type, .. }) => {
            assert_eq!(body, "");
            assert_eq!(content_type, "application/json");
        }
        _ => panic!("expected Post"),
    }
    match plan_web_tool("http_get", &args(None)) {
        Err(McpError::InvalidRequest(m)) => assert_eq!(m, "Missing 'url'"),
        _ => panic!("expected InvalidRequest"),
    }
    match plan_web_tool("nope", &args(None)) {
        Err(McpError::ToolNotFound(m)) => assert_eq!(m, "nope"),
        _ => panic!("expected ToolNotFound"),
    }
    assert!(matches!(
        plan_web_tool("web_screenshot", &args(Some("http://x"))),
        Err(McpError::ToolExecutionError(_))
    ));
}

#[test]
fn web_truncate_body() {
    assert_eq!(truncate_body("hello", 10), "hello");
    assert_eq!(truncate_body("hello world", 5), "hello...[truncated]");
}

#[test]
fn llm_status_and_numbers() {
    assert_eq!(parse_u64("42"), Some(42));
    assert_eq!(parse_u64("x"), None);
    assert_eq!(parse_u64(""), None);
    assert!(matches!(classify_status(429, Some("7")), StatusClass::RateLimited(Some(7))));
    assert!(matches!(classify_status(200, None), StatusClass::Success));
}

#[test]
fn llm_gemini_answers() {
    assert_eq!(gemini_answer_text(&vec![vec!["hi".to_string()]]).unwrap(), "hi");
    match gemini_answer_text(&vec![]) {
        Err(LlmError::ApiError(m)) => assert_eq!(m, "No candidates in response"),
        _ => panic!("expected ApiError"),
    }
    match gemini_answer_text(&vec![vec![]]) {
        Err(LlmError::ApiError(m)) => assert_eq!(m, "No parts in content"),
        _ => panic!("expected ApiError"),
    }
    assert_eq!(
        stream_data_payloads("data: {\"a\":1}\n\nevent: x\ndata: [DONE]\n"),
        vec!["{\"a\":1}".to_string(), "[DONE]".to_string()]
    );
}

#[test]
fn web_page_text_drops_script_and_style_lines() {
    assert_eq!(page_text("a\n<script>x()</script>\nb"), "a\n\nb");
    assert_eq!(page_text("<p>hi</p><style>p{}</style>"), "<p>hi</p>");
    assert_eq!(page_text("plain"), "plain");
    assert_eq!(page_text("  <script src=x>\nkeep"), "  \nkeep");
}

#[test]
fn text_lines_and_join() {
    assert_eq!(lines("a\r\nb\n\nc\n"), vec!["a", "b", "", "c"]);
    assert_eq!(lines(""), Vec::<String>::new());
    assert_eq!(join(&vec!["x".to_string(), "y".to_string()], ", "), "x, y");
    assert_eq!(join(&vec![], ", "), "");
}
