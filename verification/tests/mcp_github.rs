use std::collections::HashSet;

use oxify::mcp::McpError;
use oxify::mcp_github::{github_tool_names, parse_state, GitHubConfig, IssueState};

#[test]
fn test_config_from_env_missing_token_errors() {
    let result = GitHubConfig::from_vars(None, None);
    assert!(result.is_err());
}

#[test]
fn test_parse_state_valid() {
    assert!(parse_state("open").is_ok());
    assert!(parse_state("closed").is_ok());
    assert!(parse_state("all").is_ok());
}

#[test]
fn test_parse_state_invalid() {
    assert!(parse_state("unknown").is_err());
    assert!(parse_state("").is_err());
}

#[test]
fn test_list_tools_all_names_unique() {
    let tools = github_tool_names();
    let names: HashSet<&str> = tools.iter().copied().collect();
    assert_eq!(names.len(), 8, "all tool names must be unique");
}

#[test]
fn test_config_default_has_empty_token() {
    let cfg = GitHubConfig::default();
    assert!(cfg.token.is_empty());
    assert!(cfg.default_owner.is_none());
    assert_eq!(cfg.timeout_secs, 30);
}

#[test]
fn github_parse_state_values_and_message() {
    assert_eq!(parse_state("open").unwrap(), IssueState::Open);
    assert_eq!(parse_state("closed").unwrap(), IssueState::Closed);
    assert_eq!(parse_state("all").unwrap(), IssueState::All);
    match parse_state("Open") {
        Err(McpError::InvalidRequest(m)) => {
            assert_eq!(m, "Invalid state 'Open': expected one of open, closed, all")
        }
        _ => panic!("expected InvalidRequest"),
    }
}

#[test]
fn github_config_from_vars() {
    let cfg = GitHubConfig::from_vars(Some("tok".to_string()), Some("acme".to_string())).unwrap();
    assert_eq!(cfg.token, "tok");
    assert_eq!(cfg.default_owner.as_deref(), Some("acme"));
    assert_eq!(cfg.user_agent, "oxify-mcp/0.2");
    match GitHubConfig::from_vars(None, Some("acme".to_string())) {
        Err(McpError::InvalidRequest(m)) => assert_eq!(m, "GITHUB_TOKEN not set"),
        _ => panic!("expected InvalidRequest"),
    }
}

#[test]
fn github_resolve_owner() {
    let mut cfg = GitHubConfig::default();
    assert_eq!(cfg.resolve_owner(&Some("me".to_string())).unwrap(), "me");
    match cfg.resolve_owner(&None) {
        Err(McpError::InvalidRequest(m)) => assert_eq!(
            m,
            "Missing 'owner' argument and GITHUB_DEFAULT_OWNER is not configured"
        ),
        _ => panic!("expected InvalidRequest"),
    }
    cfg.default_owner = Some("org".to_string());
    assert_eq!(cfg.resolve_owner(&None).unwrap(), "org");
    assert_eq!(cfg.resolve_owner(&Some("me".to_string())).unwrap(), "me");
}

#[test]
fn github_tool_names_in_order() {
    assert_eq!(
        github_tool_names(),
        vec![
            "list_repos",
            "get_repo",
            "list_issues",
            "create_issue",
            "list_prs",
            "create_pr",
            "get_file",
            "search_code"
        ]
    );
}
