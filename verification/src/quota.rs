//! Execution and token quotas: the decisions taken on a quota record.
//!
//! A quota record holds the configured limits of a user or a workflow, its
//! current usage counters, and the times (microseconds since the Unix epoch)
//! at which its hourly, daily and monthly counters were last reset. Counters
//! are reset lazily, when a quota is checked: a counter goes back to zero
//! once a boundary of its period lies between its last reset and the check.
//! Hours begin on the hour, days at midnight UTC, months on the first day of
//! the month at 00:00 UTC.

use vstd::prelude::*;

verus! {

/// One hour, in microseconds.
pub const HOUR_MICROS: i64 = 3_600_000_000;

/// One day, in microseconds.
pub const DAY_MICROS: i64 = 86_400_000_000;

/// A refused storage request.
#[derive(Debug)]
pub enum StorageError {
    /// An argument broke a rule; the message says which.
    ValidationError(String),
}

/// The outcome of a quota check.
#[derive(Debug)]
pub struct QuotaCheckResult {
    pub allowed: bool,
    pub reason: Option<String>,
    pub current_usage: i64,
    pub limit: Option<i64>,
    pub remaining: Option<i64>,
}

/// What is left of `limit` after `current` has been used, never below zero.
pub open spec fn remaining_of(current: i64, limit: Option<i64>) -> Option<int> {
    match limit {
        Some(l) => Some(if l - current > 0 {
            l - current
        } else {
            0
        }),
        None => None,
    }
}

/// `r` refuses, for `reason`, a usage of `current` against `limit`.
pub open spec fn is_denial(r: QuotaCheckResult, reason: Seq<char>, current: i64, limit: i64) -> bool {
    &&& !r.allowed
    &&& r.reason matches Some(s) && s@ == reason
    &&& r.current_usage == current
    &&& r.limit == Some(limit)
    &&& r.remaining == Some(0i64)
}

/// `r` allows, reporting a usage of `current` against `limit`.
pub open spec fn is_allowance(r: QuotaCheckResult, current: i64, limit: Option<i64>) -> bool {
    &&& r.allowed
    &&& r.reason is None
    &&& r.current_usage == current
    &&& r.limit == limit
    &&& match (r.remaining, remaining_of(current, limit)) {
        (Some(a), Some(b)) => a == b,
        (None, None) => true,
        _ => false,
    }
}

/// `l - current` is an `i64`.
pub open spec fn difference_fits(current: i64, limit: Option<i64>) -> bool {
    limit matches Some(l) ==> i64::MIN <= l - current <= i64::MAX
}

impl QuotaCheckResult {
    /// An allowance with no usage reported.
    pub fn allowed() -> (r: Self)
        ensures
            r.allowed,
            r.reason is None,
            r.current_usage == 0,
            r.limit is None,
            r.remaining is None,
    {
        QuotaCheckResult { allowed: true, reason: None, current_usage: 0, limit: None, remaining: None }
    }

    /// A refusal for `reason`: `current` has reached `limit`, nothing remains.
    pub fn denied(reason: &str, current: i64, limit: i64) -> (r: Self)
        ensures
            is_denial(r, reason@, current, limit),
    {
        QuotaCheckResult {
            allowed: false,
            reason: Some(reason.to_owned()),
            current_usage: current,
            limit: Some(limit),
            remaining: Some(0),
        }
    }

    /// The same outcome, reporting a usage of `current` against `limit` and
    /// what remains of the limit (never below zero).
    pub fn with_usage(self, current: i64, limit: Option<i64>) -> (r: Self)
        requires
            difference_fits(current, limit),
        ensures
            r.allowed == self.allowed,
            r.reason == self.reason,
            r.current_usage == current,
            r.limit == limit,
            match (r.remaining, remaining_of(current, limit)) {
                (Some(a), Some(b)) => a == b,
                (None, None) => true,
                _ => false,
            },
    {
        let remaining = match limit {
            Some(l) => {
                let d = l - current;
                Some(if d > 0 {
                    d
                } else {
                    0
                })
            },
            None => None,
        };
        QuotaCheckResult { allowed: self.allowed, reason: self.reason, current_usage: current, limit, remaining }
    }
}

/// Widens an optional `i32` limit.
pub open spec fn widen(o: Option<i32>) -> Option<i64> {
    match o {
        Some(l) => Some(l as i64),
        None => None,
    }
}

fn widen_exec(o: Option<i32>) -> (r: Option<i64>)
    ensures
        r == widen(o),
{
    match o {
        Some(l) => Some(l as i64),
        None => None,
    }
}

/// `r` is the outcome of checking execution counters against their limits:
/// the hourly limit first, then the daily one.
pub open spec fn execution_check(
    r: QuotaCheckResult,
    this_hour: i32,
    per_hour: Option<i32>,
    today: i32,
    per_day: Option<i32>,
    hourly_reason: Seq<char>,
    daily_reason: Seq<char>,
) -> bool {
    if per_hour matches Some(l) && this_hour >= l {
        is_denial(r, hourly_reason, this_hour as i64, per_hour.unwrap() as i64)
    } else if per_day matches Some(l) && today >= l {
        is_denial(r, daily_reason, today as i64, per_day.unwrap() as i64)
    } else {
        is_allowance(r, today as i64, widen(per_day))
    }
}

fn check_execution_counts(
    this_hour: i32,
    per_hour: Option<i32>,
    today: i32,
    per_day: Option<i32>,
    hourly_reason: &str,
    daily_reason: &str,
) -> (r: QuotaCheckResult)
    ensures
        execution_check(r, this_hour, per_hour, today, per_day, hourly_reason@, daily_reason@),
{
    if let Some(l) = per_hour {
        if this_hour >= l {
            return QuotaCheckResult::denied(hourly_reason, this_hour as i64, l as i64);
        }
    }
    if let Some(l) = per_day {
        if today >= l {
            return QuotaCheckResult::denied(daily_reason, today as i64, l as i64);
        }
    }
    QuotaCheckResult::allowed().with_usage(today as i64, widen_exec(per_day))
}

/// Reads `Some(l)` with `l <= 0` as invalid.
pub open spec fn positive_or_none_i32(o: Option<i32>) -> bool {
    o matches Some(l) ==> l > 0
}

/// Reads `Some(l)` with `l <= 0` as invalid.
pub open spec fn positive_or_none_i64(o: Option<i64>) -> bool {
    o matches Some(l) ==> l > 0
}

/// `r` is the refusal with `message`.
pub open spec fn is_validation_error(r: Result<(), StorageError>, message: Seq<char>) -> bool {
    r matches Err(StorageError::ValidationError(m)) && m@ == message
}

fn require_positive_i32(o: Option<i32>, message: &str) -> (r: Result<(), StorageError>)
    ensures
        positive_or_none_i32(o) ==> r is Ok,
        !positive_or_none_i32(o) ==> is_validation_error(r, message@),
{
    match o {
        Some(l) => if l <= 0 {
            Err(StorageError::ValidationError(message.to_owned()))
        } else {
            Ok(())
        },
        None => Ok(()),
    }
}

fn require_positive_i64(o: Option<i64>, message: &str) -> (r: Result<(), StorageError>)
    ensures
        positive_or_none_i64(o) ==> r is Ok,
        !positive_or_none_i64(o) ==> is_validation_error(r, message@),
{
    match o {
        Some(l) => if l <= 0 {
            Err(StorageError::ValidationError(message.to_owned()))
        } else {
            Ok(())
        },
        None => Ok(()),
    }
}

/// The replacement of `current` by `new` when `new` is given.
pub open spec fn coalesce<T>(new: Option<T>, current: Option<T>) -> Option<T> {
    match new {
        Some(v) => Some(v),
        None => current,
    }
}

fn coalesce_exec<T: Copy>(new: Option<T>, current: Option<T>) -> (r: Option<T>)
    ensures
        r == coalesce(new, current),
{
    match new {
        Some(v) => Some(v),
        None => current,
    }
}

/// A boundary of the periods of `period` microseconds, counted from the
/// epoch, lies after `last` and no later than `now`: `now` falls in a later
/// period than `last`.
pub open spec fn boundary_crossed(now: i64, last: i64, period: i64) -> bool {
    (now as int) / (period as int) > (last as int) / (period as int)
}

proof fn lemma_floor_div_fits(x: i64, p: i64)
    requires
        p > 0,
    ensures
        i64::MIN <= (x as int) / (p as int) <= i64::MAX,
{
    let q = (x as int) / (p as int);
    assert((p as int) * q <= x as int && (x as int) < (p as int) * q + (p as int)) by (nonlinear_arith)
        requires
            p > 0,
            q == (x as int) / (p as int),
    ;
    if x >= 0 {
        assert(0 <= q <= x) by (nonlinear_arith)
            requires
                p > 0,
                x >= 0,
                (p as int) * q <= x as int,
                (x as int) < (p as int) * q + (p as int),
        ;
    } else {
        assert(x <= q < 0) by (nonlinear_arith)
            requires
                p > 0,
                x < 0,
                (p as int) * q <= x as int,
                (x as int) < (p as int) * q + (p as int),
        ;
    }
}

fn boundary_crossed_exec(now: i64, last: i64, period: i64) -> (b: bool)
    requires
        period > 0,
    ensures
        b == boundary_crossed(now, last, period),
{
    proof {
        lemma_floor_div_fits(now, period);
        lemma_floor_div_fits(last, period);
    }
    match (now.checked_div_euclid(period), last.checked_div_euclid(period)) {
        (Some(a), Some(b)) => a > b,
        _ => false,
    }
}

/// The year and month (1 to 12) of day `days` counted from 1 January 1970,
/// in the proleptic Gregorian calendar: days are counted in eras of 400
/// years (146 097 days) that begin on 1 March, so that a leap day ends its
/// year.
pub open spec fn civil_year_month(days: int) -> (int, int) {
    let z = days + 719468;
    let era = z / 146097;
    let doe = z - era * 146097;
    let yoe = (doe - doe / 1460 + doe / 36524 - doe / 146096) / 365;
    let doy = doe - (365 * yoe + yoe / 4 - yoe / 100);
    let mp = (5 * doy + 2) / 153;
    let m = if mp < 10 {
        mp + 3
    } else {
        mp - 9
    };
    (yoe + era * 400 + if m <= 2 {
        1int
    } else {
        0int
    }, m)
}

/// The UTC year and month of a moment in microseconds since the epoch.
pub open spec fn utc_year_month_of(micros: i64) -> (int, int) {
    civil_year_month((micros as int) / (DAY_MICROS as int))
}

/// `now` falls in a later calendar month (UTC) than `last`.
pub open spec fn month_crossed(now: i64, last: i64) -> bool {
    let (y1, m1) = utc_year_month_of(now);
    let (y0, m0) = utc_year_month_of(last);
    y1 > y0 || (y1 == y0 && m1 > m0)
}

/// The UTC year and month of a moment.
pub fn utc_year_month(micros: i64) -> (r: (i64, i64))
    ensures
        r.0 == utc_year_month_of(micros).0,
        r.1 == utc_year_month_of(micros).1,
{
    let ghost d = (micros as int) / (DAY_MICROS as int);
    proof {
        assert(DAY_MICROS * d <= micros < DAY_MICROS * d + DAY_MICROS) by (nonlinear_arith)
            requires
                d == (micros as int) / (DAY_MICROS as int),
                DAY_MICROS == 86_400_000_000i64,
        ;
        assert(-106_751_992 <= d <= 106_751_991) by (nonlinear_arith)
            requires
                DAY_MICROS * d <= micros < DAY_MICROS * d + DAY_MICROS,
                DAY_MICROS == 86_400_000_000i64,
                i64::MIN <= micros <= i64::MAX,
        ;
    }
    let days: i64 = match micros.checked_div_euclid(DAY_MICROS) {
        Some(q) => q,
        None => 0,
    };
    assert(days == d);
    let z: i64 = days + 719468;
    let ghost era_s = (z as int) / 146097;
    proof {
        assert(146097 * era_s <= z < 146097 * era_s + 146097) by (nonlinear_arith)
            requires
                era_s == (z as int) / 146097,
        ;
        assert(-800 <= era_s <= 800) by (nonlinear_arith)
            requires
                146097 * era_s <= z < 146097 * era_s + 146097,
                -106_751_992 + 719468 <= z <= 106_751_991 + 719468,
        ;
    }
    let era: i64 = match z.checked_div_euclid(146097) {
        Some(q) => q,
        None => 0,
    };
    assert(era == era_s);
    let doe: i64 = z - era * 146097;
    assert(0 <= doe < 146097);
    let yoe: i64 = (doe - doe / 1460 + doe / 36524 - doe / 146096) / 365;
    assert(0 <= yoe <= 400);
    let doy: i64 = doe - (365 * yoe + yoe / 4 - yoe / 100);
    assert(0 <= doy <= 400) by (nonlinear_arith)
        requires
            0 <= doe < 146097,
            yoe == (doe - doe / 1460 + doe / 36524 - doe / 146096) / 365,
            doy == doe - (365 * yoe + yoe / 4 - yoe / 100),
    ;
    let mp: i64 = (5 * doy + 2) / 153;
    let m: i64 = if mp < 10 {
        mp + 3
    } else {
        mp - 9
    };
    let y: i64 = yoe + era * 400 + if m <= 2 {
        1
    } else {
        0
    };
    (y, m)
}

fn month_crossed_exec(now: i64, last: i64) -> (b: bool)
    ensures
        b == month_crossed(now, last),
{
    let (y1, m1) = utc_year_month(now);
    let (y0, m0) = utc_year_month(last);
    y1 > y0 || (y1 == y0 && m1 > m0)
}

// ---------------------------------------------------------------------------
// User quotas
// ---------------------------------------------------------------------------

/// The quota of a user: its limits, its usage and its reset times.
#[derive(Clone, Copy, Debug)]
pub struct UserQuota {
    pub id: u128,
    pub user_id: u128,
    pub max_executions_per_day: Option<i32>,
    pub max_executions_per_hour: Option<i32>,
    pub max_concurrent_executions: i32,
    pub max_tokens_per_day: Option<i64>,
    pub max_tokens_per_month: Option<i64>,
    pub max_cost_per_day_cents: Option<i32>,
    pub max_cost_per_month_cents: Option<i32>,
    pub max_workflows: i32,
    pub max_secrets: i32,
    pub max_api_keys: i32,
    pub executions_today: i32,
    pub executions_this_hour: i32,
    pub tokens_today: i64,
    pub tokens_this_month: i64,
    pub cost_today_cents: i32,
    pub cost_this_month_cents: i32,
    pub last_hourly_reset: i64,
    pub last_daily_reset: i64,
    pub last_monthly_reset: i64,
    pub created_at: i64,
    pub updated_at: i64,
}

/// The user quota after the counters whose period has ended at `now` are
/// reset: the hourly count once an hour boundary has passed, the daily
/// counts once midnight UTC has passed, the monthly counts once a new
/// calendar month has begun.
pub open spec fn user_reset(q: UserQuota, now: i64) -> UserQuota {
    let h = boundary_crossed(now, q.last_hourly_reset, HOUR_MICROS);
    let d = boundary_crossed(now, q.last_daily_reset, DAY_MICROS);
    let m = month_crossed(now, q.last_monthly_reset);
    UserQuota {
        executions_this_hour: if h { 0 } else { q.executions_this_hour },
        last_hourly_reset: if h { now } else { q.last_hourly_reset },
        executions_today: if d { 0 } else { q.executions_today },
        tokens_today: if d { 0 } else { q.tokens_today },
        cost_today_cents: if d { 0 } else { q.cost_today_cents },
        last_daily_reset: if d { now } else { q.last_daily_reset },
        tokens_this_month: if m { 0 } else { q.tokens_this_month },
        cost_this_month_cents: if m { 0 } else { q.cost_this_month_cents },
        last_monthly_reset: if m { now } else { q.last_monthly_reset },
        ..q
    }
}

/// The user quota with the given limits replacing the current ones.
pub open spec fn user_with_limits(
    q: UserQuota,
    max_executions_per_day: Option<i32>,
    max_executions_per_hour: Option<i32>,
    max_tokens_per_day: Option<i64>,
    max_tokens_per_month: Option<i64>,
    max_cost_per_day_cents: Option<i32>,
    max_cost_per_month_cents: Option<i32>,
) -> UserQuota {
    UserQuota {
        max_executions_per_day: coalesce(max_executions_per_day, q.max_executions_per_day),
        max_executions_per_hour: coalesce(max_executions_per_hour, q.max_executions_per_hour),
        max_tokens_per_day: coalesce(max_tokens_per_day, q.max_tokens_per_day),
        max_tokens_per_month: coalesce(max_tokens_per_month, q.max_tokens_per_month),
        max_cost_per_day_cents: coalesce(max_cost_per_day_cents, q.max_cost_per_day_cents),
        max_cost_per_month_cents: coalesce(max_cost_per_month_cents, q.max_cost_per_month_cents),
        ..q
    }
}

/// The user limits are all positive where given.
pub open spec fn user_limits_valid(
    max_executions_per_day: Option<i32>,
    max_executions_per_hour: Option<i32>,
    max_tokens_per_day: Option<i64>,
    max_tokens_per_month: Option<i64>,
    max_cost_per_day_cents: Option<i32>,
    max_cost_per_month_cents: Option<i32>,
) -> bool {
    &&& positive_or_none_i32(max_executions_per_day)
    &&& positive_or_none_i32(max_executions_per_hour)
    &&& positive_or_none_i64(max_tokens_per_day)
    &&& positive_or_none_i64(max_tokens_per_month)
    &&& positive_or_none_i32(max_cost_per_day_cents)
    &&& positive_or_none_i32(max_cost_per_month_cents)
}

/// `r` is the outcome of validating user limits: the first limit, in
/// parameter order, that is given and not positive is reported.
pub open spec fn user_limits_check(
    r: Result<(), StorageError>,
    max_executions_per_day: Option<i32>,
    max_executions_per_hour: Option<i32>,
    max_tokens_per_day: Option<i64>,
    max_tokens_per_month: Option<i64>,
    max_cost_per_day_cents: Option<i32>,
    max_cost_per_month_cents: Option<i32>,
) -> bool {
    if !positive_or_none_i32(max_executions_per_day) {
        is_validation_error(r, "max_executions_per_day must be positive"@)
    } else if !positive_or_none_i32(max_executions_per_hour) {
        is_validation_error(r, "max_executions_per_hour must be positive"@)
    } else if !positive_or_none_i64(max_tokens_per_day) {
        is_validation_error(r, "max_tokens_per_day must be positive"@)
    } else if !positive_or_none_i64(max_tokens_per_month) {
        is_validation_error(r, "max_tokens_per_month must be positive"@)
    } else if !positive_or_none_i32(max_cost_per_day_cents) {
        is_validation_error(r, "max_cost_per_day_cents must be positive"@)
    } else if !positive_or_none_i32(max_cost_per_month_cents) {
        is_validation_error(r, "max_cost_per_month_cents must be positive"@)
    } else {
        r is Ok
    }
}

/// Validates new user limits: each given limit must be positive.
pub fn validate_user_limits(
    max_executions_per_day: Option<i32>,
    max_executions_per_hour: Option<i32>,
    max_tokens_per_day: Option<i64>,
    max_tokens_per_month: Option<i64>,
    max_cost_per_day_cents: Option<i32>,
    max_cost_per_month_cents: Option<i32>,
) -> (r: Result<(), StorageError>)
    ensures
        user_limits_check(
            r,
            max_executions_per_day,
            max_executions_per_hour,
            max_tokens_per_day,
            max_tokens_per_month,
            max_cost_per_day_cents,
            max_cost_per_month_cents,
        ),
        r is Ok <==> user_limits_valid(
            max_executions_per_day,
            max_executions_per_hour,
            max_tokens_per_day,
            max_tokens_per_month,
            max_cost_per_day_cents,
            max_cost_per_month_cents,
        ),
{
    let r = require_positive_i32(max_executions_per_day, "max_executions_per_day must be positive");
    if r.is_err() {
        return r;
    }
    let r = require_positive_i32(max_executions_per_hour, "max_executions_per_hour must be positive");
    if r.is_err() {
        return r;
    }
    let r = require_positive_i64(max_tokens_per_day, "max_tokens_per_day must be positive");
    if r.is_err() {
        return r;
    }
    let r = require_positive_i64(max_tokens_per_month, "max_tokens_per_month must be positive");
    if r.is_err() {
        return r;
    }
    let r = require_positive_i32(max_cost_per_day_cents, "max_cost_per_day_cents must be positive");
    if r.is_err() {
        return r;
    }
    require_positive_i32(max_cost_per_month_cents, "max_cost_per_month_cents must be positive")
}

/// `r` is the outcome of checking a token request of `needed` against the
/// daily, then the monthly, token limit.
pub open spec fn token_check(r: QuotaCheckResult, q: UserQuota, needed: i64) -> bool {
    if q.max_tokens_per_day matches Some(l) && q.tokens_today + needed > l {
        is_denial(r, "Daily token limit exceeded"@, q.tokens_today, q.max_tokens_per_day.unwrap())
    } else if q.max_tokens_per_month matches Some(l) && q.tokens_this_month + needed > l {
        is_denial(
            r,
            "Monthly token limit exceeded"@,
            q.tokens_this_month,
            q.max_tokens_per_month.unwrap(),
        )
    } else {
        is_allowance(r, q.tokens_today, q.max_tokens_per_day)
    }
}

/// The sums and differences a token check computes are `i64`s.
pub open spec fn token_check_fits(q: UserQuota, needed: i64) -> bool {
    &&& (q.max_tokens_per_day is Some ==> i64::MIN <= q.tokens_today + needed <= i64::MAX)
    &&& ((q.max_tokens_per_day matches Some(l) ==> q.tokens_today + needed <= l)
        ==> (q.max_tokens_per_month is Some ==> i64::MIN <= q.tokens_this_month + needed <= i64::MAX))
    &&& difference_fits(q.tokens_today, q.max_tokens_per_day)
}

impl UserQuota {
    /// Resets the counters whose period has ended at `now`: the hourly
    /// execution count on the hour, the daily counts at midnight UTC, the
    /// monthly counts on the first day of a month.
    pub fn reset_if_needed(&mut self, now: i64)
        ensures
            *final(self) == user_reset(*old(self), now),
    {
        if boundary_crossed_exec(now, self.last_hourly_reset, HOUR_MICROS) {
            self.executions_this_hour = 0;
            self.last_hourly_reset = now;
        }
        if boundary_crossed_exec(now, self.last_daily_reset, DAY_MICROS) {
            self.executions_today = 0;
            self.tokens_today = 0;
            self.cost_today_cents = 0;
            self.last_daily_reset = now;
        }
        if month_crossed_exec(now, self.last_monthly_reset) {
            self.tokens_this_month = 0;
            self.cost_this_month_cents = 0;
            self.last_monthly_reset = now;
        }
    }

    /// Checks whether the user may start an execution: refused when the
    /// hourly or the daily execution limit is reached.
    pub fn check_execution(&self) -> (r: QuotaCheckResult)
        ensures
            execution_check(
                r,
                self.executions_this_hour,
                self.max_executions_per_hour,
                self.executions_today,
                self.max_executions_per_day,
                "Hourly execution limit exceeded"@,
                "Daily execution limit exceeded"@,
            ),
    {
        check_execution_counts(
            self.executions_this_hour,
            self.max_executions_per_hour,
            self.executions_today,
            self.max_executions_per_day,
            "Hourly execution limit exceeded",
            "Daily execution limit exceeded",
        )
    }

    /// Checks whether the user may spend `tokens_needed` more tokens: refused
    /// when the daily or the monthly budget would be exceeded.
    pub fn check_tokens(&self, tokens_needed: i64) -> (r: QuotaCheckResult)
        requires
            token_check_fits(*self, tokens_needed),
        ensures
            token_check(r, *self, tokens_needed),
    {
        if let Some(l) = self.max_tokens_per_day {
            if self.tokens_today + tokens_needed > l {
                return QuotaCheckResult::denied("Daily token limit exceeded", self.tokens_today, l);
            }
        }
        if let Some(l) = self.max_tokens_per_month {
            if self.tokens_this_month + tokens_needed > l {
                return QuotaCheckResult::denied(
                    "Monthly token limit exceeded",
                    self.tokens_this_month,
                    l,
                );
            }
        }
        QuotaCheckResult::allowed().with_usage(self.tokens_today, self.max_tokens_per_day)
    }

    /// Replaces the limits that are given, after validating them; on a
    /// refusal nothing changes.
    pub fn update_limits(
        &mut self,
        max_executions_per_day: Option<i32>,
        max_executions_per_hour: Option<i32>,
        max_tokens_per_day: Option<i64>,
        max_tokens_per_month: Option<i64>,
        max_cost_per_day_cents: Option<i32>,
        max_cost_per_month_cents: Option<i32>,
    ) -> (r: Result<(), StorageError>)
        ensures
            user_limits_check(
                r,
                max_executions_per_day,
                max_executions_per_hour,
                max_tokens_per_day,
                max_tokens_per_month,
                max_cost_per_day_cents,
                max_cost_per_month_cents,
            ),
            r is Err ==> *final(self) == *old(self),
            r is Ok ==> *final(self) == user_with_limits(
                *old(self),
                max_executions_per_day,
                max_executions_per_hour,
                max_tokens_per_day,
                max_tokens_per_month,
                max_cost_per_day_cents,
                max_cost_per_month_cents,
            ),
    {
        let r = validate_user_limits(
            max_executions_per_day,
            max_executions_per_hour,
            max_tokens_per_day,
            max_tokens_per_month,
            max_cost_per_day_cents,
            max_cost_per_month_cents,
        );
        if r.is_ok() {
            self.max_executions_per_day = coalesce_exec(max_executions_per_day, self.max_executions_per_day);
            self.max_executions_per_hour = coalesce_exec(max_executions_per_hour, self.max_executions_per_hour);
            self.max_tokens_per_day = coalesce_exec(max_tokens_per_day, self.max_tokens_per_day);
            self.max_tokens_per_month = coalesce_exec(max_tokens_per_month, self.max_tokens_per_month);
            self.max_cost_per_day_cents = coalesce_exec(max_cost_per_day_cents, self.max_cost_per_day_cents);
            self.max_cost_per_month_cents = coalesce_exec(max_cost_per_month_cents, self.max_cost_per_month_cents);
        }
        r
    }

    /// Counts one more execution this hour and today.
    pub fn increment_execution(&mut self)
        requires
            old(self).executions_today < i32::MAX,
            old(self).executions_this_hour < i32::MAX,
        ensures
            *final(self) == (UserQuota {
                executions_today: (old(self).executions_today + 1) as i32,
                executions_this_hour: (old(self).executions_this_hour + 1) as i32,
                ..*old(self)
            }),
    {
        self.executions_today = self.executions_today + 1;
        self.executions_this_hour = self.executions_this_hour + 1;
    }

    /// Adds spent tokens and cost to the daily and monthly counters.
    pub fn add_token_usage(&mut self, tokens: i64, cost_cents: i32)
        requires
            i64::MIN <= old(self).tokens_today + tokens <= i64::MAX,
            i64::MIN <= old(self).tokens_this_month + tokens <= i64::MAX,
            i32::MIN <= old(self).cost_today_cents + cost_cents <= i32::MAX,
            i32::MIN <= old(self).cost_this_month_cents + cost_cents <= i32::MAX,
        ensures
            *final(self) == (UserQuota {
                tokens_today: (old(self).tokens_today + tokens) as i64,
                tokens_this_month: (old(self).tokens_this_month + tokens) as i64,
                cost_today_cents: (old(self).cost_today_cents + cost_cents) as i32,
                cost_this_month_cents: (old(self).cost_this_month_cents + cost_cents) as i32,
                ..*old(self)
            }),
    {
        self.tokens_today = self.tokens_today + tokens;
        self.tokens_this_month = self.tokens_this_month + tokens;
        self.cost_today_cents = self.cost_today_cents + cost_cents;
        self.cost_this_month_cents = self.cost_this_month_cents + cost_cents;
    }
}

// ---------------------------------------------------------------------------
// Workflow quotas
// ---------------------------------------------------------------------------

/// The quota of a workflow: its limits, its usage and its reset times.
#[derive(Clone, Copy, Debug)]
pub struct WorkflowQuota {
    pub id: u128,
    pub workflow_id: u128,
    pub max_executions_per_day: Option<i32>,
    pub max_executions_per_hour: Option<i32>,
    pub max_execution_duration_ms: i32,
    pub max_retries: i32,
    pub max_tokens_per_execution: Option<i64>,
    pub max_cost_per_execution_cents: Option<i32>,
    pub max_nodes: i32,
    pub max_parallel_nodes: i32,
    pub executions_today: i32,
    pub executions_this_hour: i32,
    pub last_hourly_reset: i64,
    pub last_daily_reset: i64,
    pub created_at: i64,
    pub updated_at: i64,
}

/// The workflow quota after the counters whose period has ended at `now`
/// are reset: the hourly count once an hour boundary has passed, the daily
/// count once midnight UTC has passed.
pub open spec fn workflow_reset(q: WorkflowQuota, now: i64) -> WorkflowQuota {
    let h = boundary_crossed(now, q.last_hourly_reset, HOUR_MICROS);
    let d = boundary_crossed(now, q.last_daily_reset, DAY_MICROS);
    WorkflowQuota {
        executions_this_hour: if h { 0 } else { q.executions_this_hour },
        last_hourly_reset: if h { now } else { q.last_hourly_reset },
        executions_today: if d { 0 } else { q.executions_today },
        last_daily_reset: if d { now } else { q.last_daily_reset },
        ..q
    }
}

/// `r` is the outcome of validating workflow limits: the first limit, in
/// parameter order, that is given and not positive is reported.
pub open spec fn workflow_limits_check(
    r: Result<(), StorageError>,
    max_executions_per_day: Option<i32>,
    max_executions_per_hour: Option<i32>,
    max_execution_duration_ms: Option<i32>,
    max_tokens_per_execution: Option<i64>,
    max_cost_per_execution_cents: Option<i32>,
) -> bool {
    if !positive_or_none_i32(max_executions_per_day) {
        is_validation_error(r, "max_executions_per_day must be positive"@)
    } else if !positive_or_none_i32(max_executions_per_hour) {
        is_validation_error(r, "max_executions_per_hour must be positive"@)
    } else if !positive_or_none_i32(max_execution_duration_ms) {
        is_validation_error(r, "max_execution_duration_ms must be positive"@)
    } else if !positive_or_none_i64(max_tokens_per_execution) {
        is_validation_error(r, "max_tokens_per_execution must be positive"@)
    } else if !positive_or_none_i32(max_cost_per_execution_cents) {
        is_validation_error(r, "max_cost_per_execution_cents must be positive"@)
    } else {
        r is Ok
    }
}

/// Validates new workflow limits: each given limit must be positive.
pub fn validate_workflow_limits(
    max_executions_per_day: Option<i32>,
    max_executions_per_hour: Option<i32>,
    max_execution_duration_ms: Option<i32>,
    max_tokens_per_execution: Option<i64>,
    max_cost_per_execution_cents: Option<i32>,
) -> (r: Result<(), StorageError>)
    ensures
        workflow_limits_check(
            r,
            max_executions_per_day,
            max_executions_per_hour,
            max_execution_duration_ms,
            max_tokens_per_execution,
            max_cost_per_execution_cents,
        ),
{
    let r = require_positive_i32(max_executions_per_day, "max_executions_per_day must be positive");
    if r.is_err() {
        return r;
    }
    let r = require_positive_i32(max_executions_per_hour, "max_executions_per_hour must be positive");
    if r.is_err() {
        return r;
    }
    let r = require_positive_i32(
        max_execution_duration_ms,
        "max_execution_duration_ms must be positive",
    );
    if r.is_err() {
        return r;
    }
    let r = require_positive_i64(max_tokens_per_execution, "max_tokens_per_execution must be positive");
    if r.is_err() {
        return r;
    }
    require_positive_i32(max_cost_per_execution_cents, "max_cost_per_execution_cents must be positive")
}

/// The workflow quota with the given limits replacing the current ones.
pub open spec fn workflow_with_limits(
    q: WorkflowQuota,
    max_executions_per_day: Option<i32>,
    max_executions_per_hour: Option<i32>,
    max_execution_duration_ms: Option<i32>,
    max_tokens_per_execution: Option<i64>,
    max_cost_per_execution_cents: Option<i32>,
) -> WorkflowQuota {
    WorkflowQuota {
        max_executions_per_day: coalesce(max_executions_per_day, q.max_executions_per_day),
        max_executions_per_hour: coalesce(max_executions_per_hour, q.max_executions_per_hour),
        max_execution_duration_ms: match max_execution_duration_ms {
            Some(v) => v,
            None => q.max_execution_duration_ms,
        },
        max_tokens_per_execution: coalesce(max_tokens_per_execution, q.max_tokens_per_execution),
        max_cost_per_execution_cents: coalesce(
            max_cost_per_execution_cents,
            q.max_cost_per_execution_cents,
        ),
        ..q
    }
}

impl WorkflowQuota {
    /// Resets the counters whose period has ended at `now`: the hourly
    /// execution count on the hour, the daily one at midnight UTC.
    pub fn reset_if_needed(&mut self, now: i64)
        ensures
            *final(self) == workflow_reset(*old(self), now),
    {
        if boundary_crossed_exec(now, self.last_hourly_reset, HOUR_MICROS) {
            self.executions_this_hour = 0;
            self.last_hourly_reset = now;
        }
        if boundary_crossed_exec(now, self.last_daily_reset, DAY_MICROS) {
            self.executions_today = 0;
            self.last_daily_reset = now;
        }
    }

    /// Checks whether the workflow may run once more: refused when the
    /// hourly or the daily execution limit is reached.
    pub fn check_execution(&self) -> (r: QuotaCheckResult)
        ensures
            execution_check(
                r,
                self.executions_this_hour,
                self.max_executions_per_hour,
                self.executions_today,
                self.max_executions_per_day,
                "Workflow hourly execution limit exceeded"@,
                "Workflow daily execution limit exceeded"@,
            ),
    {
        check_execution_counts(
            self.executions_this_hour,
            self.max_executions_per_hour,
            self.executions_today,
            self.max_executions_per_day,
            "Workflow hourly execution limit exceeded",
            "Workflow daily execution limit exceeded",
        )
    }

    /// Replaces the limits that are given, after validating them; on a
    /// refusal nothing changes.
    pub fn update_limits(
        &mut self,
        max_executions_per_day: Option<i32>,
        max_executions_per_hour: Option<i32>,
        max_execution_duration_ms: Option<i32>,
        max_tokens_per_execution: Option<i64>,
        max_cost_per_execution_cents: Option<i32>,
    ) -> (r: Result<(), StorageError>)
        ensures
            workflow_limits_check(
                r,
                max_executions_per_day,
                max_executions_per_hour,
                max_execution_duration_ms,
                max_tokens_per_execution,
                max_cost_per_execution_cents,
            ),
            r is Err ==> *final(self) == *old(self),
            r is Ok ==> *final(self) == workflow_with_limits(
                *old(self),
                max_executions_per_day,
                max_executions_per_hour,
                max_execution_duration_ms,
                max_tokens_per_execution,
                max_cost_per_execution_cents,
            ),
    {
        let r = validate_workflow_limits(
            max_executions_per_day,
            max_executions_per_hour,
            max_execution_duration_ms,
            max_tokens_per_execution,
            max_cost_per_execution_cents,
        );
        if r.is_ok() {
            self.max_executions_per_day = coalesce_exec(max_executions_per_day, self.max_executions_per_day);
            self.max_executions_per_hour = coalesce_exec(max_executions_per_hour, self.max_executions_per_hour);
            if let Some(v) = max_execution_duration_ms {
                self.max_execution_duration_ms = v;
            }
            self.max_tokens_per_execution = coalesce_exec(max_tokens_per_execution, self.max_tokens_per_execution);
            self.max_cost_per_execution_cents = coalesce_exec(
                max_cost_per_execution_cents,
                self.max_cost_per_execution_cents,
            );
        }
        r
    }

    /// Counts one more execution this hour and today.
    pub fn increment_execution(&mut self)
        requires
            old(self).executions_today < i32::MAX,
            old(self).executions_this_hour < i32::MAX,
        ensures
            *final(self) == (WorkflowQuota {
                executions_today: (old(self).executions_today + 1) as i32,
                executions_this_hour: (old(self).executions_this_hour + 1) as i32,
                ..*old(self)
            }),
    {
        self.executions_today = self.executions_today + 1;
        self.executions_this_hour = self.executions_this_hour + 1;
    }
}

// ---------------------------------------------------------------------------
// Bulk updates and usage buckets
// ---------------------------------------------------------------------------

/// The refusal message for one bulk update, if any of its limits is invalid.
pub open spec fn bulk_entry_error(u: (u128, Option<i32>, Option<i32>, Option<i64>)) -> Option<Seq<char>> {
    if !positive_or_none_i32(u.1) {
        Some("max_executions_per_day must be positive"@)
    } else if !positive_or_none_i32(u.2) {
        Some("max_executions_per_hour must be positive"@)
    } else if !positive_or_none_i64(u.3) {
        Some("max_tokens_per_day must be positive"@)
    } else {
        None
    }
}

/// The refusal message of the first invalid update of `s`, if any.
pub open spec fn bulk_error(s: Seq<(u128, Option<i32>, Option<i32>, Option<i64>)>) -> Option<Seq<char>>
    decreases s.len(),
{
    if s.len() == 0 {
        None
    } else if bulk_entry_error(s[0]) is Some {
        bulk_entry_error(s[0])
    } else {
        bulk_error(s.drop_first())
    }
}

/// A batch with an invalid update is refused, naming the first invalid
/// update: when the updates before position `j` are valid and update `j`
/// is not, the batch's error is update `j`'s.
pub proof fn law_invalid_update_refuses_batch(us: Seq<LimitUpdate>, j: int)
    requires
        0 <= j < us.len(),
        bulk_entry_error(us[j]) is Some,
        forall|k: int| 0 <= k < j ==> #[trigger] bulk_entry_error(us[k]) is None,
    ensures
        bulk_error(us) == bulk_entry_error(us[j]),
    decreases j,
{
    if j > 0 {
        let rest = us.drop_first();
        assert forall|k: int| 0 <= k < j - 1 implies #[trigger] bulk_entry_error(rest[k]) is None by {
            assert(rest[k] == us[k + 1]);
        }
        assert(bulk_entry_error(us[0]) is None);
        assert(rest[j - 1] == us[j]);
        law_invalid_update_refuses_batch(rest, j - 1);
    }
}

/// Any invalid update makes the whole batch refused.
pub proof fn law_any_invalid_update_refuses_batch(us: Seq<LimitUpdate>, j: int)
    requires
        0 <= j < us.len(),
        bulk_entry_error(us[j]) is Some,
    ensures
        bulk_error(us) is Some,
    decreases j,
{
    if bulk_entry_error(us[0]) is None {
        let rest = us.drop_first();
        assert(rest[j - 1] == us[j]);
        law_any_invalid_update_refuses_batch(rest, j - 1);
    }
}

/// `r` refuses with a validation error carrying `message`.
pub open spec fn is_validation_error_u64(r: Result<u64, StorageError>, message: Seq<char>) -> bool {
    r matches Err(StorageError::ValidationError(m)) && m@ == message
}

/// Validates a batch of user limit updates (user, executions per day,
/// executions per hour, tokens per day); the first invalid one is reported,
/// and a batch with an invalid update is refused as a whole.
pub fn validate_bulk_user_limits(updates: &[(u128, Option<i32>, Option<i32>, Option<i64>)]) -> (r: Result<(), StorageError>)
    ensures
        match bulk_error(updates@) {
            Some(m) => is_validation_error(r, m),
            None => r is Ok,
        },
{
    let mut i: usize = 0;
    assert(updates@.subrange(0, updates@.len() as int) =~= updates@);
    while i < updates.len()
        invariant
            i <= updates@.len(),
            bulk_error(updates@) == bulk_error(updates@.subrange(i as int, updates@.len() as int)),
        decreases updates@.len() - i,
    {
        let ghost rest = updates@.subrange(i as int, updates@.len() as int);
        assert(rest[0] == updates@[i as int]);
        assert(rest.drop_first() =~= updates@.subrange(i + 1, updates@.len() as int));
        let (_, per_day, per_hour, tokens) = updates[i];
        let r = require_positive_i32(per_day, "max_executions_per_day must be positive");
        if r.is_err() {
            return r;
        }
        let r = require_positive_i32(per_hour, "max_executions_per_hour must be positive");
        if r.is_err() {
            return r;
        }
        let r = require_positive_i64(tokens, "max_tokens_per_day must be positive");
        if r.is_err() {
            return r;
        }
        i = i + 1;
    }
    Ok(())
}

/// One update of a batch: a user, and the new executions per day,
/// executions per hour and tokens per day (a limit left out is kept).
pub type LimitUpdate = (u128, Option<i32>, Option<i32>, Option<i64>);

/// The quota after `u`: its limits replaced when it belongs to `u`'s user.
pub open spec fn limit_update(q: UserQuota, u: LimitUpdate) -> UserQuota {
    if q.user_id == u.0 {
        UserQuota {
            max_executions_per_day: coalesce(u.1, q.max_executions_per_day),
            max_executions_per_hour: coalesce(u.2, q.max_executions_per_hour),
            max_tokens_per_day: coalesce(u.3, q.max_tokens_per_day),
            ..q
        }
    } else {
        q
    }
}

/// The quotas after the updates of `us`, one after the other.
pub open spec fn bulk_applied(qs: Seq<UserQuota>, us: Seq<LimitUpdate>) -> Seq<UserQuota>
    decreases us.len(),
{
    if us.len() == 0 {
        qs
    } else {
        let prev = bulk_applied(qs, us.drop_last());
        Seq::new(prev.len(), |i: int| limit_update(prev[i], us.last()))
    }
}

/// The users the quotas belong to.
pub open spec fn quota_users(qs: Seq<UserQuota>) -> Seq<u128> {
    Seq::new(qs.len(), |i: int| qs[i].user_id)
}

/// How many of `users` are `id`.
pub open spec fn rows_of(users: Seq<u128>, id: u128) -> nat
    decreases users.len(),
{
    if users.len() == 0 {
        0
    } else {
        rows_of(users.drop_last(), id) + if users.last() == id {
            1nat
        } else {
            0nat
        }
    }
}

/// How many quota rows the updates of `us` touch, counted per update.
pub open spec fn bulk_rows(users: Seq<u128>, us: Seq<LimitUpdate>) -> nat
    decreases us.len(),
{
    if us.len() == 0 {
        0
    } else {
        bulk_rows(users, us.drop_last()) + rows_of(users, us.last().0)
    }
}

proof fn lemma_bulk_keeps_users(qs: Seq<UserQuota>, us: Seq<LimitUpdate>)
    ensures
        quota_users(bulk_applied(qs, us)) == quota_users(qs),
    decreases us.len(),
{
    if us.len() > 0 {
        lemma_bulk_keeps_users(qs, us.drop_last());
        assert(quota_users(bulk_applied(qs, us)) =~= quota_users(bulk_applied(qs, us.drop_last())));
    }
}

proof fn lemma_rows_of_bound(users: Seq<u128>, id: u128)
    ensures
        rows_of(users, id) <= users.len(),
    decreases users.len(),
{
    if users.len() > 0 {
        lemma_rows_of_bound(users.drop_last(), id);
    }
}

/// Applies a batch of limit updates to the stored quotas, all or nothing:
/// when an update carries a limit that is not positive, the batch is refused
/// (the first such update named) and no quota changes; otherwise every
/// update is applied in order, and the result counts the rows each update
/// touched.
pub fn bulk_update_user_limits(quotas: &mut Vec<UserQuota>, updates: &[LimitUpdate]) -> (r: Result<u64, StorageError>)
    requires
        updates@.len() * old(quotas)@.len() <= u64::MAX,
    ensures
        match bulk_error(updates@) {
            Some(m) => is_validation_error_u64(r, m) && final(quotas)@ == old(quotas)@,
            None => r == Ok::<u64, StorageError>(bulk_rows(quota_users(old(quotas)@), updates@) as u64)
                && final(quotas)@ == bulk_applied(old(quotas)@, updates@),
        },
{
    match validate_bulk_user_limits(updates) {
        Err(e) => return Err(e),
        Ok(()) => {},
    }
    let ghost qs0 = quotas@;
    let ghost users = quota_users(qs0);
    let n = quotas.len();
    let mut total: u64 = 0;
    let mut i: usize = 0;
    proof {
        assert(updates@.take(0) =~= Seq::<LimitUpdate>::empty());
    }
    while i < updates.len()
        invariant
            i <= updates@.len(),
            n == qs0.len(),
            users == quota_users(qs0),
            updates@.len() * qs0.len() <= u64::MAX,
            quotas@ == bulk_applied(qs0, updates@.take(i as int)),
            total == bulk_rows(users, updates@.take(i as int)),
            total <= i * n,
        decreases updates@.len() - i,
    {
        let u = updates[i];
        let ghost prev = quotas@;
        proof {
            lemma_bulk_keeps_users(qs0, updates@.take(i as int));
            assert(updates@.take(i + 1).drop_last() =~= updates@.take(i as int));
            assert(updates@.take(i + 1).last() == u);
        }
        let mut j: usize = 0;
        let mut count: u64 = 0;
        while j < n
            invariant
                j <= n,
                n == prev.len(),
                n == quotas@.len(),
                quota_users(prev) == users,
                forall|k: int| 0 <= k < j ==> #[trigger] quotas@[k] == limit_update(prev[k], u),
                forall|k: int| j <= k < n ==> #[trigger] quotas@[k] == prev[k],
                count == rows_of(users.take(j as int), u.0),
                count <= j,
            decreases n - j,
        {
            proof {
                assert(users.take(j + 1).drop_last() =~= users.take(j as int));
                assert(users[j as int] == prev[j as int].user_id);
            }
            let q = quotas[j];
            if q.user_id == u.0 {
                let nq = UserQuota {
                    max_executions_per_day: coalesce_exec(u.1, q.max_executions_per_day),
                    max_executions_per_hour: coalesce_exec(u.2, q.max_executions_per_hour),
                    max_tokens_per_day: coalesce_exec(u.3, q.max_tokens_per_day),
                    ..q
                };
                quotas.set(j, nq);
                count = count + 1;
            }
            j = j + 1;
        }
        proof {
            assert(quotas@ =~= bulk_applied(qs0, updates@.take(i + 1)));
            assert(users.take(n as int) =~= users);
            assert(total + count <= (i + 1) * n) by (nonlinear_arith)
                requires
                    total <= i * n,
                    count <= n,
            ;
            assert((i + 1) * n <= updates@.len() * n) by (nonlinear_arith)
                requires
                    i + 1 <= updates@.len(),
            ;
        }
        total = total + count;
        i = i + 1;
    }
    proof {
        assert(updates@.take(updates@.len() as int) =~= updates@);
    }
    Ok(total)
}

/// Applying a batch keeps the quotas, their users, their usage and the
/// limits the updates do not carry; a quota whose user no update names ends
/// exactly as it was.
pub proof fn law_bulk_update_touches_only_named_users(qs: Seq<UserQuota>, us: Seq<LimitUpdate>, k: int)
    requires
        0 <= k < qs.len(),
    ensures
        bulk_applied(qs, us).len() == qs.len(),
        bulk_applied(qs, us)[k].user_id == qs[k].user_id,
        bulk_applied(qs, us)[k].executions_today == qs[k].executions_today,
        bulk_applied(qs, us)[k].tokens_today == qs[k].tokens_today,
        bulk_applied(qs, us)[k].max_tokens_per_month == qs[k].max_tokens_per_month,
        (forall|j: int| 0 <= j < us.len() ==> #[trigger] us[j].0 != qs[k].user_id)
            ==> bulk_applied(qs, us)[k] == qs[k],
    decreases us.len(),
{
    if us.len() > 0 {
        law_bulk_update_touches_only_named_users(qs, us.drop_last(), k);
        if forall|j: int| 0 <= j < us.len() ==> #[trigger] us[j].0 != qs[k].user_id {
            assert forall|j: int| 0 <= j < us.drop_last().len() implies #[trigger] us.drop_last()[j].0
                != qs[k].user_id by {
                assert(us.drop_last()[j] == us[j]);
            }
            assert(us.last().0 != qs[k].user_id);
        }
    }
}

/// The start of the hour that contains `t` (hours begin at multiples of an
/// hour since the epoch).
pub open spec fn hour_start(t: i64) -> int {
    (t as int) - (t as int) % (HOUR_MICROS as int)
}

/// The usage bucket of a moment: the start of its hour.
#[verifier::spinoff_prover]
pub fn hour_bucket_start(t: i64) -> (r: i64)
    requires
        t >= i64::MIN + HOUR_MICROS,
    ensures
        r == hour_start(t),
        r <= t < r + HOUR_MICROS,
        (r as int) % (HOUR_MICROS as int) == 0,
{
    let m = t % HOUR_MICROS;
    let r: i64 = if m < 0 {
        t - m - HOUR_MICROS
    } else {
        t - m
    };
    r
}

// ---------------------------------------------------------------------------
// Checks that reset first
// ---------------------------------------------------------------------------

/// The sums and differences of a token check fit in `i64` whether or not the
/// daily and monthly counters are reset first.
pub open spec fn token_request_fits(q: UserQuota, needed: i64) -> bool {
    &&& i64::MIN <= q.tokens_today + needed <= i64::MAX
    &&& i64::MIN <= q.tokens_this_month + needed <= i64::MAX
    &&& difference_fits(q.tokens_today, q.max_tokens_per_day)
}

/// Checks whether the user may start an execution at `now`: the counters
/// whose period has ended are reset first, then the hourly and the daily
/// limits are checked against the counts after the reset.
pub fn check_user_execution_quota(q: &mut UserQuota, now: i64) -> (r: QuotaCheckResult)
    ensures
        *final(q) == user_reset(*old(q), now),
        execution_check(
            r,
            final(q).executions_this_hour,
            final(q).max_executions_per_hour,
            final(q).executions_today,
            final(q).max_executions_per_day,
            "Hourly execution limit exceeded"@,
            "Daily execution limit exceeded"@,
        ),
{
    q.reset_if_needed(now);
    q.check_execution()
}

/// Checks whether the user may spend `tokens_needed` more tokens at `now`:
/// the counters whose period has ended are reset first, then the daily and
/// the monthly budgets are checked against the usage after the reset.
pub fn check_user_token_quota(q: &mut UserQuota, now: i64, tokens_needed: i64) -> (r: QuotaCheckResult)
    requires
        token_request_fits(*old(q), tokens_needed),
    ensures
        *final(q) == user_reset(*old(q), now),
        token_check(r, *final(q), tokens_needed),
{
    q.reset_if_needed(now);
    q.check_tokens(tokens_needed)
}

/// Checks whether the workflow may run once more at `now`: the counters
/// whose period has ended are reset first, then the hourly and the daily
/// limits are checked against the counts after the reset.
pub fn check_workflow_execution_quota(q: &mut WorkflowQuota, now: i64) -> (r: QuotaCheckResult)
    ensures
        *final(q) == workflow_reset(*old(q), now),
        execution_check(
            r,
            final(q).executions_this_hour,
            final(q).max_executions_per_hour,
            final(q).executions_today,
            final(q).max_executions_per_day,
            "Workflow hourly execution limit exceeded"@,
            "Workflow daily execution limit exceeded"@,
        ),
{
    q.reset_if_needed(now);
    q.check_execution()
}

// ---------------------------------------------------------------------------
// Laws
// ---------------------------------------------------------------------------

/// A check allows an execution exactly when the counts are under every
/// configured limit; a refusal leaves nothing remaining, an allowance never
/// reports a negative remainder.
pub proof fn law_execution_check_allows_under_limits(
    r: QuotaCheckResult,
    this_hour: i32,
    per_hour: Option<i32>,
    today: i32,
    per_day: Option<i32>,
    hourly_reason: Seq<char>,
    daily_reason: Seq<char>,
)
    requires
        execution_check(r, this_hour, per_hour, today, per_day, hourly_reason, daily_reason),
    ensures
        r.allowed <==> ((per_hour matches Some(l) ==> this_hour < l) && (per_day matches Some(l)
            ==> today < l)),
        !r.allowed ==> r.remaining == Some(0i64),
        r.remaining matches Some(x) ==> x >= 0,
{
}

/// A token request is allowed exactly when it fits the daily and the monthly
/// budgets.
pub proof fn law_token_check_allows_within_budget(r: QuotaCheckResult, q: UserQuota, needed: i64)
    requires
        token_check(r, q, needed),
    ensures
        r.allowed <==> ((q.max_tokens_per_day matches Some(l) ==> q.tokens_today + needed <= l)
            && (q.max_tokens_per_month matches Some(l) ==> q.tokens_this_month + needed <= l)),
        r.remaining matches Some(x) ==> x >= 0,
{
}

/// Resetting twice at the same moment changes nothing more than resetting
/// once.
pub proof fn law_user_reset_idempotent(q: UserQuota, now: i64)
    ensures
        user_reset(user_reset(q, now), now) == user_reset(q, now),
{
}

/// Resetting twice at the same moment changes nothing more than resetting
/// once.
pub proof fn law_workflow_reset_idempotent(q: WorkflowQuota, now: i64)
    ensures
        workflow_reset(workflow_reset(q, now), now) == workflow_reset(q, now),
{
}

/// A reset at `now` zeroes each counter whose period has ended and moves its
/// reset time into the current period, so that a second check at the same
/// moment resets nothing more.
pub proof fn law_user_reset_fresh(q: UserQuota, now: i64)
    ensures
        boundary_crossed(now, q.last_hourly_reset, HOUR_MICROS) ==> !boundary_crossed(
            now,
            user_reset(q, now).last_hourly_reset,
            HOUR_MICROS,
        ),
        boundary_crossed(now, q.last_daily_reset, DAY_MICROS) ==> !boundary_crossed(
            now,
            user_reset(q, now).last_daily_reset,
            DAY_MICROS,
        ),
        month_crossed(now, q.last_monthly_reset) ==> !month_crossed(now, user_reset(q, now).last_monthly_reset),
        boundary_crossed(now, q.last_hourly_reset, HOUR_MICROS) ==> user_reset(q, now).executions_this_hour == 0,
        boundary_crossed(now, q.last_daily_reset, DAY_MICROS) ==> user_reset(q, now).executions_today == 0
            && user_reset(q, now).tokens_today == 0 && user_reset(q, now).cost_today_cents == 0,
        month_crossed(now, q.last_monthly_reset) ==> user_reset(q, now).tokens_this_month == 0
            && user_reset(q, now).cost_this_month_cents == 0,
{
}

/// Accepted limit updates keep every stored limit positive.
pub proof fn law_user_limits_stay_positive(
    q: UserQuota,
    r: Result<(), StorageError>,
    max_executions_per_day: Option<i32>,
    max_executions_per_hour: Option<i32>,
    max_tokens_per_day: Option<i64>,
    max_tokens_per_month: Option<i64>,
    max_cost_per_day_cents: Option<i32>,
    max_cost_per_month_cents: Option<i32>,
)
    requires
        user_limits_valid(
            q.max_executions_per_day,
            q.max_executions_per_hour,
            q.max_tokens_per_day,
            q.max_tokens_per_month,
            q.max_cost_per_day_cents,
            q.max_cost_per_month_cents,
        ),
        user_limits_check(
            r,
            max_executions_per_day,
            max_executions_per_hour,
            max_tokens_per_day,
            max_tokens_per_month,
            max_cost_per_day_cents,
            max_cost_per_month_cents,
        ),
        r is Ok,
    ensures
        ({
            let u = user_with_limits(
                q,
                max_executions_per_day,
                max_executions_per_hour,
                max_tokens_per_day,
                max_tokens_per_month,
                max_cost_per_day_cents,
                max_cost_per_month_cents,
            );
            user_limits_valid(
                u.max_executions_per_day,
                u.max_executions_per_hour,
                u.max_tokens_per_day,
                u.max_tokens_per_month,
                u.max_cost_per_day_cents,
                u.max_cost_per_month_cents,
            )
        }),
{
}

proof fn lemma_same_period(now: i64, last: i64, period: i64, k: int)
    requires
        period > 0,
        k * period <= last <= now < (k + 1) * period,
    ensures
        !boundary_crossed(now, last, period),
{
    let p = period as int;
    assert((now as int) / p == k) by (nonlinear_arith)
        requires
            p > 0,
            k * p <= now < (k + 1) * p,
    ;
    assert((last as int) / p == k) by (nonlinear_arith)
        requires
            p > 0,
            k * p <= last < (k + 1) * p,
    ;
}

proof fn lemma_full_period_later(now: i64, last: i64, period: i64)
    requires
        period > 0,
        now >= last + period,
    ensures
        boundary_crossed(now, last, period),
{
    let p = period as int;
    let q = (last as int) / p;
    assert(q * p <= last) by (nonlinear_arith)
        requires
            p > 0,
            q == (last as int) / p,
    ;
    assert((q + 1) * p == q * p + p) by (nonlinear_arith);
    assert((now as int) / p >= q + 1) by (nonlinear_arith)
        requires
            p > 0,
            now >= (q + 1) * p,
    ;
}

/// A workflow's daily count survives every check within one day: when the
/// last daily reset and `now` lie in the same UTC day (from midnight
/// `k * DAY_MICROS` to the next), the count and the reset time stay; a
/// full day or more after the last reset, the count is back to zero. The
/// hourly count behaves alike within and across hours.
pub proof fn law_workflow_reset_periods(q: WorkflowQuota, now: i64, k: int, h: int)
    ensures
        k * DAY_MICROS <= q.last_daily_reset <= now < (k + 1) * DAY_MICROS ==> workflow_reset(
            q,
            now,
        ).executions_today == q.executions_today && workflow_reset(q, now).last_daily_reset
            == q.last_daily_reset,
        now >= q.last_daily_reset + DAY_MICROS ==> workflow_reset(q, now).executions_today == 0
            && workflow_reset(q, now).last_daily_reset == now,
        h * HOUR_MICROS <= q.last_hourly_reset <= now < (h + 1) * HOUR_MICROS ==> workflow_reset(
            q,
            now,
        ).executions_this_hour == q.executions_this_hour && workflow_reset(q, now).last_hourly_reset
            == q.last_hourly_reset,
        now >= q.last_hourly_reset + HOUR_MICROS ==> workflow_reset(q, now).executions_this_hour == 0
            && workflow_reset(q, now).last_hourly_reset == now,
        workflow_reset(q, now).max_executions_per_day == q.max_executions_per_day,
        workflow_reset(q, now).max_executions_per_hour == q.max_executions_per_hour,
{
    if k * DAY_MICROS <= q.last_daily_reset <= now < (k + 1) * DAY_MICROS {
        lemma_same_period(now, q.last_daily_reset, DAY_MICROS, k);
    }
    if now >= q.last_daily_reset + DAY_MICROS {
        lemma_full_period_later(now, q.last_daily_reset, DAY_MICROS);
    }
    if h * HOUR_MICROS <= q.last_hourly_reset <= now < (h + 1) * HOUR_MICROS {
        lemma_same_period(now, q.last_hourly_reset, HOUR_MICROS, h);
    }
    if now >= q.last_hourly_reset + HOUR_MICROS {
        lemma_full_period_later(now, q.last_hourly_reset, HOUR_MICROS);
    }
}

/// The same for a user: within one UTC day the daily counts (executions,
/// tokens, cost) and the reset time stay, a full day later they are back to
/// zero; within one hour the hourly count stays, an hour later it is zero.
pub proof fn law_user_reset_periods(q: UserQuota, now: i64, k: int, h: int)
    ensures
        k * DAY_MICROS <= q.last_daily_reset <= now < (k + 1) * DAY_MICROS ==> user_reset(q, now).executions_today
            == q.executions_today && user_reset(q, now).tokens_today == q.tokens_today && user_reset(
            q,
            now,
        ).cost_today_cents == q.cost_today_cents && user_reset(q, now).last_daily_reset
            == q.last_daily_reset,
        now >= q.last_daily_reset + DAY_MICROS ==> user_reset(q, now).executions_today == 0 && user_reset(
            q,
            now,
        ).tokens_today == 0 && user_reset(q, now).cost_today_cents == 0 && user_reset(q, now).last_daily_reset
            == now,
        h * HOUR_MICROS <= q.last_hourly_reset <= now < (h + 1) * HOUR_MICROS ==> user_reset(
            q,
            now,
        ).executions_this_hour == q.executions_this_hour && user_reset(q, now).last_hourly_reset
            == q.last_hourly_reset,
        now >= q.last_hourly_reset + HOUR_MICROS ==> user_reset(q, now).executions_this_hour == 0
            && user_reset(q, now).last_hourly_reset == now,
{
    if k * DAY_MICROS <= q.last_daily_reset <= now < (k + 1) * DAY_MICROS {
        lemma_same_period(now, q.last_daily_reset, DAY_MICROS, k);
    }
    if now >= q.last_daily_reset + DAY_MICROS {
        lemma_full_period_later(now, q.last_daily_reset, DAY_MICROS);
    }
    if h * HOUR_MICROS <= q.last_hourly_reset <= now < (h + 1) * HOUR_MICROS {
        lemma_same_period(now, q.last_hourly_reset, HOUR_MICROS, h);
    }
    if now >= q.last_hourly_reset + HOUR_MICROS {
        lemma_full_period_later(now, q.last_hourly_reset, HOUR_MICROS);
    }
}

/// A check keeps a workflow within its daily limit until the day is over:
/// when the last daily reset lies in the same UTC day as `now` and the
/// count has reached the daily limit, the check refuses.
pub proof fn law_workflow_daily_limit_holds_all_day(q: WorkflowQuota, now: i64, k: int, r: QuotaCheckResult)
    requires
        k * DAY_MICROS <= q.last_daily_reset <= now < (k + 1) * DAY_MICROS,
        q.max_executions_per_day matches Some(l) && q.executions_today >= l,
        execution_check(
            r,
            workflow_reset(q, now).executions_this_hour,
            workflow_reset(q, now).max_executions_per_hour,
            workflow_reset(q, now).executions_today,
            workflow_reset(q, now).max_executions_per_day,
            "Workflow hourly execution limit exceeded"@,
            "Workflow daily execution limit exceeded"@,
        ),
    ensures
        !r.allowed,
{
    law_workflow_reset_periods(q, now, k, 0);
}

} // verus!
