use oxify::mcp::McpError;
use oxify::mcp_web::extract_selected_text;

#[test]
fn test_extract_selected_text_matches_known_structure() {
    let html = r#"
        <html><body>
            <div class="post"><h2>First</h2><p>Hello <b>world</b></p></div>
            <div class="post"><h2>Second</h2><p>Goodbye</p></div>
            <div class="sidebar"><p>ignore me</p></div>
        </body></html>
    "#;

    // Two `<p>` elements live inside `div.post`; the sidebar paragraph is excluded.
    // Each element's descendant text nodes are trimmed and space-joined; elements are
    // newline-joined in document order.
    let text = extract_selected_text(html, "div.post p")
        .expect("a valid selector should parse without error");
    assert_eq!(text, "Hello world\nGoodbye");
}

#[test]
fn test_extract_selected_text_zero_matches_is_empty_not_error() {
    let html = "<html><body><p>content</p></body></html>";

    // A syntactically valid selector that matches nothing must yield an empty string,
    // never an error.
    let text = extract_selected_text(html, "table.does-not-exist")
        .expect("a valid selector matching zero elements must not error");
    assert!(text.is_empty(), "expected an empty string for zero matches, got {text:?}");
}

#[test]
fn test_extract_selected_text_invalid_selector_is_invalid_request() {
    let html = "<html><body><p>content</p></body></html>";

    // A malformed selector must be reported as InvalidRequest, not panic.
    let result = extract_selected_text(html, ">>> not a valid selector <<<");
    match result {
        Err(McpError::InvalidRequest(msg)) => {
            assert!(
                msg.contains("Invalid CSS selector"),
                "error message should identify the bad selector, got: {msg}"
            );
        }
        other => {
            panic!("expected McpError::InvalidRequest for a malformed selector, got {other:?}")
        }
    }
}

#[test]
fn web_selected_text_skips_blank_fragments() {
    let html = "<ul><li>  a  </li><li> </li><li>b <i>c</i></li></ul>";
    assert_eq!(extract_selected_text(html, "li").unwrap(), "a\n\nb c");
}
