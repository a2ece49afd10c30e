use oxify::quota::{
    bulk_update_user_limits, check_user_execution_quota, check_user_token_quota, utc_year_month,
    check_workflow_execution_quota,
    hour_bucket_start, validate_bulk_user_limits, validate_user_limits, validate_workflow_limits,
    QuotaCheckResult, StorageError, UserQuota, WorkflowQuota, DAY_MICROS, HOUR_MICROS,
};

/// 1 February 1970, 00:00 UTC, in microseconds.
const FEB_1970: i64 = 31 * DAY_MICROS;

#[test]
fn test_quota_check_result_allowed() {
    let result = QuotaCheckResult::allowed();
    assert!(result.allowed);
    assert!(result.reason.is_none());
}

#[test]
fn test_quota_check_result_denied() {
    let result = QuotaCheckResult::denied("Test limit exceeded", 100, 100);
    assert!(!result.allowed);
    assert_eq!(result.reason, Some("Test limit exceeded".to_string()));
    assert_eq!(result.current_usage, 100);
    assert_eq!(result.limit, Some(100));
    assert_eq!(result.remaining, Some(0));
}

#[test]
fn test_quota_check_with_usage() {
    let result = QuotaCheckResult::allowed().with_usage(50, Some(100));
    assert!(result.allowed);
    assert_eq!(result.current_usage, 50);
    assert_eq!(result.limit, Some(100));
    assert_eq!(result.remaining, Some(50));
}

fn user_quota() -> UserQuota {
    UserQuota {
        id: 1,
        user_id: 2,
        max_executions_per_day: Some(10),
        max_executions_per_hour: Some(3),
        max_concurrent_executions: 5,
        max_tokens_per_day: Some(1000),
        max_tokens_per_month: Some(5000),
        max_cost_per_day_cents: None,
        max_cost_per_month_cents: None,
        max_workflows: 100,
        max_secrets: 50,
        max_api_keys: 10,
        executions_today: 0,
        executions_this_hour: 0,
        tokens_today: 0,
        tokens_this_month: 0,
        cost_today_cents: 0,
        cost_this_month_cents: 0,
        last_hourly_reset: 0,
        last_daily_reset: 0,
        last_monthly_reset: 0,
        created_at: 0,
        updated_at: 0,
    }
}

fn workflow_quota() -> WorkflowQuota {
    WorkflowQuota {
        id: 1,
        workflow_id: 7,
        max_executions_per_day: Some(2),
        max_executions_per_hour: None,
        max_execution_duration_ms: 60_000,
        max_retries: 3,
        max_tokens_per_execution: None,
        max_cost_per_execution_cents: None,
        max_nodes: 100,
        max_parallel_nodes: 10,
        executions_today: 0,
        executions_this_hour: 0,
        last_hourly_reset: 0,
        last_daily_reset: 0,
        created_at: 0,
        updated_at: 0,
    }
}

#[test]
fn quota_execution_limits() {
    let mut q = user_quota();
    for _ in 0..3 {
        assert!(q.check_execution().allowed);
        q.increment_execution();
    }
    let r = q.check_execution();
    assert!(!r.allowed);
    assert_eq!(r.reason.as_deref(), Some("Hourly execution limit exceeded"));
    assert_eq!(r.current_usage, 3);
    assert_eq!(r.limit, Some(3));
    // An hour later the hourly count starts over.
    q.reset_if_needed(HOUR_MICROS);
    assert_eq!(q.executions_this_hour, 0);
    assert_eq!(q.executions_today, 3);
    let r = q.check_execution();
    assert!(r.allowed);
    assert_eq!(r.current_usage, 3);
    assert_eq!(r.remaining, Some(7));
}

#[test]
fn quota_token_limits() {
    let mut q = user_quota();
    q.add_token_usage(900, 12);
    assert_eq!(q.tokens_today, 900);
    assert_eq!(q.cost_this_month_cents, 12);
    let r = q.check_tokens(100);
    assert!(r.allowed);
    assert_eq!(r.remaining, Some(100));
    let r = q.check_tokens(101);
    assert!(!r.allowed);
    assert_eq!(r.reason.as_deref(), Some("Daily token limit exceeded"));
    q.reset_if_needed(DAY_MICROS);
    assert_eq!(q.tokens_today, 0);
    assert_eq!(q.tokens_this_month, 900);
    q.tokens_this_month = 4950;
    let r = q.check_tokens(100);
    assert_eq!(r.reason.as_deref(), Some("Monthly token limit exceeded"));
    q.reset_if_needed(FEB_1970 - 1);
    assert_eq!(q.tokens_this_month, 4950);
    q.reset_if_needed(FEB_1970);
    assert_eq!(q.tokens_this_month, 0);
    assert_eq!(q.last_monthly_reset, FEB_1970);
}

#[test]
fn quota_reset_not_yet_due_changes_nothing() {
    let mut q = user_quota();
    q.increment_execution();
    let before = q;
    q.reset_if_needed(HOUR_MICROS - 1);
    assert_eq!(q.executions_this_hour, before.executions_this_hour);
    assert_eq!(q.last_hourly_reset, before.last_hourly_reset);
}

#[test]
fn quota_update_limits() {
    let mut q = user_quota();
    assert!(q.update_limits(Some(20), None, None, None, Some(300), None).is_ok());
    assert_eq!(q.max_executions_per_day, Some(20));
    assert_eq!(q.max_executions_per_hour, Some(3));
    assert_eq!(q.max_cost_per_day_cents, Some(300));
    match q.update_limits(None, Some(0), None, None, None, None) {
        Err(StorageError::ValidationError(m)) => {
            assert_eq!(m, "max_executions_per_hour must be positive")
        }
        _ => panic!("expected ValidationError"),
    }
    assert_eq!(q.max_executions_per_hour, Some(3));
}

#[test]
fn quota_validation_errors() {
    assert!(validate_user_limits(None, None, None, None, None, None).is_ok());
    match validate_user_limits(None, None, Some(-1), None, None, None) {
        Err(StorageError::ValidationError(m)) => assert_eq!(m, "max_tokens_per_day must be positive"),
        _ => panic!("expected ValidationError"),
    }
    assert!(validate_workflow_limits(Some(1), Some(1), Some(1), Some(1), Some(1)).is_ok());
    assert!(validate_workflow_limits(Some(0), None, None, None, None).is_err());
    assert!(validate_bulk_user_limits(&[(1, Some(1), None, None), (2, None, Some(2), Some(3))]).is_ok());
    assert!(validate_bulk_user_limits(&[(1, Some(1), None, None), (2, None, Some(-2), None)]).is_err());
}

#[test]
fn quota_workflow_daily_limit() {
    let mut w = workflow_quota();
    w.increment_execution();
    w.increment_execution();
    let r = w.check_execution();
    assert!(!r.allowed);
    assert_eq!(r.reason.as_deref(), Some("Workflow daily execution limit exceeded"));
    w.reset_if_needed(DAY_MICROS);
    assert!(w.check_execution().allowed);
}

#[test]
fn quota_hour_bucket() {
    assert_eq!(hour_bucket_start(0), 0);
    assert_eq!(hour_bucket_start(HOUR_MICROS + 5), HOUR_MICROS);
    assert_eq!(hour_bucket_start(2 * HOUR_MICROS), 2 * HOUR_MICROS);
}

#[test]
fn quota_reset_twice_is_reset_once() {
    let mut q = user_quota();
    q.increment_execution();
    q.add_token_usage(10, 1);
    q.reset_if_needed(DAY_MICROS + 5);
    let once = q;
    q.reset_if_needed(DAY_MICROS + 5);
    assert_eq!(q.executions_today, once.executions_today);
    assert_eq!(q.tokens_today, once.tokens_today);
    assert_eq!(q.last_daily_reset, once.last_daily_reset);
    assert_eq!(q.last_hourly_reset, once.last_hourly_reset);
    assert_eq!(q.last_monthly_reset, once.last_monthly_reset);
}

#[test]
fn quota_hourly_reset_on_the_hour() {
    // Limit of 5 per hour reached, last reset at 10:50; a check at 11:05 is
    // allowed, after the counter goes back to zero.
    let mut q = user_quota();
    q.max_executions_per_hour = Some(5);
    q.max_executions_per_day = None;
    q.executions_this_hour = 5;
    q.last_hourly_reset = 10 * HOUR_MICROS + 50 * 60_000_000;
    let at_1059 = 10 * HOUR_MICROS + 59 * 60_000_000;
    let r = check_user_execution_quota(&mut q, at_1059);
    assert!(!r.allowed);
    assert_eq!(q.executions_this_hour, 5);
    let at_1105 = 11 * HOUR_MICROS + 5 * 60_000_000;
    let r = check_user_execution_quota(&mut q, at_1105);
    assert!(r.allowed);
    assert_eq!(q.executions_this_hour, 0);
    assert_eq!(q.last_hourly_reset, at_1105);
}

#[test]
fn quota_daily_reset_at_midnight() {
    let mut q = user_quota();
    q.executions_today = 10;
    q.tokens_today = 1000;
    q.last_daily_reset = 3 * DAY_MICROS + 23 * HOUR_MICROS;
    let r = check_user_execution_quota(&mut q, 3 * DAY_MICROS + 23 * HOUR_MICROS + 1);
    assert!(!r.allowed);
    assert_eq!(r.reason.as_deref(), Some("Daily execution limit exceeded"));
    let r = check_user_execution_quota(&mut q, 4 * DAY_MICROS + 1);
    assert!(r.allowed);
    assert_eq!(q.executions_today, 0);
    assert_eq!(q.tokens_today, 0);
}

#[test]
fn quota_token_check_resets_first() {
    // A day-old count of 1000 against a limit of 1000 does not refuse.
    let mut q = user_quota();
    q.max_tokens_per_month = None;
    q.tokens_today = 1000;
    q.last_daily_reset = 0;
    let r = check_user_token_quota(&mut q, 2 * DAY_MICROS, 1);
    assert!(r.allowed);
    assert_eq!(q.tokens_today, 0);
    assert_eq!(r.remaining, Some(1000));
    q.tokens_today = 1000;
    let r = check_user_token_quota(&mut q, 2 * DAY_MICROS + 5, 1);
    assert!(!r.allowed);
    assert_eq!(r.reason.as_deref(), Some("Daily token limit exceeded"));
}

#[test]
fn quota_workflow_check_resets_first() {
    let mut w = workflow_quota();
    w.max_executions_per_hour = Some(1);
    w.executions_this_hour = 1;
    w.last_hourly_reset = 0;
    let r = check_workflow_execution_quota(&mut w, HOUR_MICROS - 1);
    assert!(!r.allowed);
    let r = check_workflow_execution_quota(&mut w, HOUR_MICROS);
    assert!(r.allowed);
    assert_eq!(w.executions_this_hour, 0);
}

#[test]
fn quota_bulk_update_all_or_nothing() {
    let mut a = user_quota();
    a.user_id = 10;
    let mut b = user_quota();
    b.user_id = 20;
    let mut qs = vec![a, b];
    // An invalid limit in the second update refuses the batch; nothing moves.
    let r = bulk_update_user_limits(&mut qs, &[(10, Some(7), None, None), (20, Some(0), None, None)]);
    assert!(matches!(r, Err(StorageError::ValidationError(ref m)) if m == "max_executions_per_day must be positive"));
    assert_eq!(qs[0].max_executions_per_day, Some(10));
    assert_eq!(qs[1].max_executions_per_day, Some(10));
    // A valid batch applies every update and counts the rows touched.
    let r = bulk_update_user_limits(
        &mut qs,
        &[(10, Some(7), None, None), (30, Some(1), None, None), (10, None, Some(2), Some(99))],
    );
    assert!(matches!(r, Ok(2)));
    assert_eq!(qs[0].max_executions_per_day, Some(7));
    assert_eq!(qs[0].max_executions_per_hour, Some(2));
    assert_eq!(qs[0].max_tokens_per_day, Some(99));
    assert_eq!(qs[1].max_executions_per_day, Some(10));
    assert_eq!(qs[1].max_tokens_per_day, Some(1000));
}

#[test]
fn quota_calendar_months() {
    let day = DAY_MICROS;
    assert_eq!(utc_year_month(0), (1970, 1));
    assert_eq!(utc_year_month(FEB_1970), (1970, 2));
    assert_eq!(utc_year_month(FEB_1970 - 1), (1970, 1));
    assert_eq!(utc_year_month(-1), (1969, 12));
    assert_eq!(utc_year_month(11016 * day), (2000, 2));
    assert_eq!(utc_year_month(11017 * day), (2000, 3));
    assert_eq!(utc_year_month(20088 * day + 86_399_999_999), (2024, 12));
    assert_eq!(utc_year_month(20089 * day), (2025, 1));
    assert_eq!(utc_year_month(-25508 * day), (1900, 3));
    assert_eq!(utc_year_month(-135081 * day), (1600, 2));
}
