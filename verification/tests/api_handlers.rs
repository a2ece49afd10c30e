use oxify::api::{cancel_check, test_passed, ExecutionStatus};
use oxify::api::{
    count_by_category, count_by_priority, livez, parse_format, readyz, renew_ids, DocumentFormat,
    ExportQuery, OptimizationCategory, Priority,
};
use oxify::dag::{Edge, WorkflowGraph};

#[test]
fn api_probes() {
    assert_eq!(livez().status, "alive");
    assert_eq!(readyz().status, "ready");
}

#[test]
fn api_counts() {
    let ps = vec![Priority::High, Priority::Low, Priority::High, Priority::Critical];
    let c = count_by_priority(&ps);
    assert_eq!((c.critical, c.high, c.medium, c.low), (1, 2, 0, 1));
    let cs = vec![OptimizationCategory::Cost, OptimizationCategory::Security, OptimizationCategory::Cost];
    let c = count_by_category(&cs);
    assert_eq!(
        (c.performance, c.cost, c.reliability, c.maintainability, c.security),
        (0, 2, 0, 0, 1)
    );
}

#[test]
fn api_formats() {
    assert_eq!(parse_format("json").unwrap(), DocumentFormat::Json);
    assert_eq!(parse_format("yaml").unwrap(), DocumentFormat::Yaml);
    assert_eq!(
        parse_format("xml").unwrap_err(),
        "Invalid format 'xml'. Supported formats: json, yaml"
    );
    assert_eq!(ExportQuery { format: None }.export_format().unwrap(), DocumentFormat::Json);
    assert_eq!(
        ExportQuery { format: Some("yaml".to_string()) }.export_format().unwrap(),
        DocumentFormat::Yaml
    );
    assert_eq!(DocumentFormat::Json.content_type(), "application/json");
    assert_eq!(DocumentFormat::Yaml.extension(), "yaml");
}

#[test]
fn api_renew_ids_renames_edges() {
    let g = WorkflowGraph {
        nodes: vec![10, 20, 30],
        edges: vec![Edge { from: 10, to: 20 }, Edge { from: 20, to: 99 }],
    };
    let r = renew_ids(&g, &vec![1, 2, 3]);
    assert_eq!(r.nodes, vec![1, 2, 3]);
    assert_eq!(r.edges, vec![Edge { from: 1, to: 2 }, Edge { from: 2, to: 99 }]);
}

#[test]
fn api_cancel_check() {
    assert!(cancel_check(ExecutionStatus::Running).is_ok());
    assert!(cancel_check(ExecutionStatus::Paused).is_ok());
    assert_eq!(cancel_check(ExecutionStatus::Completed), Err("Cannot cancel completed execution"));
    assert_eq!(cancel_check(ExecutionStatus::Failed), Err("Cannot cancel failed execution"));
    assert_eq!(cancel_check(ExecutionStatus::Cancelled), Err("Execution already cancelled"));
}

#[test]
fn api_test_passed() {
    assert!(test_passed("anything", &None));
    assert!(test_passed(" 42 ", &Some("42".to_string())));
    assert!(test_passed("{\"a\": 1, \"b\": 2}", &Some("{\"b\":2,\"a\":1}".to_string())));
    assert!(!test_passed("{\"a\": 1}", &Some("{\"a\": 2}".to_string())));
    assert!(!test_passed("not json", &Some("other".to_string())));
}
