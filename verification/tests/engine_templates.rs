use oxify::dag::EngineError;
use oxify::templating::{replace_all, resolve_template, switch_outcome, SwitchCase, SwitchOutcome};

fn vars(v: &[(&str, &str)]) -> Vec<(String, String)> {
    v.iter().map(|(a, b)| (a.to_string(), b.to_string())).collect()
}

#[test]
fn template_replace_all() {
    assert_eq!(replace_all("a-b-c", "-", "+"), "a+b+c");
    assert_eq!(replace_all("aaaa", "aa", "b"), "bb");
    assert_eq!(replace_all("abc", "x", "y"), "abc");
    assert_eq!(replace_all("", "x", "y"), "");
}

#[test]
fn template_resolves_variables() {
    let v = vars(&[("name", "\"Ada\""), ("n", "3")]);
    assert_eq!(resolve_template("Hi {{name}}, {{ n }} times", &v).unwrap(), "Hi \"Ada\", 3 times");
    assert_eq!(resolve_template("{{n}}+{{n}}", &v).unwrap(), "3+3");
    assert_eq!(resolve_template("no placeholders {x} {{}}", &v).unwrap(), "no placeholders {x} {{}}");
}

#[test]
fn template_node_fields_and_errors() {
    let v = vars(&[]);
    assert_eq!(resolve_template("{{step.output}}", &v).unwrap(), "[step.output]");
    match resolve_template("a {{missing}} b", &v) {
        Err(EngineError::VariableNotFound(n)) => assert_eq!(n, "missing"),
        _ => panic!("expected VariableNotFound"),
    }
    match resolve_template("{{a.b.c}}", &v) {
        Err(EngineError::VariableNotFound(n)) => assert_eq!(n, "a.b.c"),
        _ => panic!("expected VariableNotFound"),
    }
}

fn case(m: &str, a: &str) -> SwitchCase {
    SwitchCase { match_value: m.to_string(), action: a.to_string() }
}

#[test]
fn switch_exact_and_regex_cases() {
    let v = vars(&[("status", "ok-200")]);
    let cases = vec![case("ok", "exact"), case("regex:^ok-\\d+$", "pattern {{status}}")];
    match switch_outcome("{{status}}", &cases, &None, &v).unwrap() {
        SwitchOutcome::Matched { matched_case, result } => {
            assert_eq!(matched_case, "regex:^ok-\\d+$");
            assert_eq!(result, "pattern ok-200");
        }
        other => panic!("unexpected {:?}", other),
    }
    let v = vars(&[("status", "ok")]);
    match switch_outcome("{{status}}", &cases, &None, &v).unwrap() {
        SwitchOutcome::Matched { matched_case, result } => {
            assert_eq!(matched_case, "ok");
            assert_eq!(result, "exact");
        }
        other => panic!("unexpected {:?}", other),
    }
}

#[test]
fn switch_default_and_no_match() {
    let v = vars(&[("x", "zzz")]);
    // An invalid pattern never matches.
    let cases = vec![case("regex:(", "never"), case("a", "b")];
    match switch_outcome("{{x}}", &cases, &Some("fallback".to_string()), &v).unwrap() {
        SwitchOutcome::Default { result } => assert_eq!(result, "fallback"),
        other => panic!("unexpected {:?}", other),
    }
    match switch_outcome("{{x}}", &cases, &None, &v).unwrap() {
        SwitchOutcome::NoMatch { message } => assert_eq!(message, "No matching case for value: zzz"),
        other => panic!("unexpected {:?}", other),
    }
    assert!(matches!(
        switch_outcome("{{nope}}", &cases, &None, &v),
        Err(EngineError::VariableNotFound(_))
    ));
}
