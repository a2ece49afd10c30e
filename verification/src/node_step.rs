//! The decisions the engine takes while it runs one node, and while it
//! retries a node that failed.
//!
//! The node's outside work (a model call, a retrieval, running code or a
//! tool, a sub-workflow, reading a pending approval) is the caller's: it
//! performs the action asked for and reports the outcome as an event.

use vstd::prelude::*;
use crate::dag::EngineError;
use crate::engine::{after_failure, max_wait, retries_exhausted_message, wait_step, HumanTaskStatus, RetryStep, WaitStep};
use crate::nodes::{done_view, parallel_decided, parallel_outcome, ParallelOutcome, ParallelStrategy};
use crate::templating::{resolve_spec, resolve_template, switch_decided, switch_outcome, vars_view, SwitchCase, SwitchOutcome};
use crate::text::decimal;

verus! {

/// The outside work a node asks for.
#[derive(Clone, Copy, Debug, PartialEq, Eq, Structural)]
pub enum ServiceKind {
    Llm,
    Retriever,
    Code,
    Condition,
    Tool,
    Loop,
    TryCatch,
    SubWorkflow,
}

/// A node, as far as the engine's decisions read it.
pub enum NodeSpec {
    Start,
    End,
    /// A node whose work an outside service does; `input` is the template
    /// (a prompt, a query) resolved before the call, where there is one.
    Service { kind: ServiceKind, input: Option<String> },
    /// Takes the first case matching the resolved `switch_on`.
    Switch { switch_on: String, cases: Vec<SwitchCase>, default_action: Option<String> },
    /// Runs its tasks (each a name and an expression) at once.
    Parallel { tasks: Vec<(String, String)>, strategy: ParallelStrategy },
    /// Waits for a human to approve, at most `timeout_secs` (an hour by
    /// default).
    Approval { timeout_secs: Option<u64> },
    /// Waits for a human to fill a form, at most `timeout_secs`.
    Form { timeout_secs: Option<u64> },
}

/// What the caller reports while a node runs.
pub enum NodeEvent {
    /// The node starts.
    Begin,
    /// The outside service answered: its output, or the text of its failure.
    ServiceDone(Result<String, String>),
    /// The parallel tasks finished, in the order they finished: each task's
    /// name with its value or the text of its failure.
    TasksDone(Vec<(String, Result<String, String>)>),
    /// The request waited on was read: its status, so many seconds into
    /// the wait.
    Polled { status: HumanTaskStatus, elapsed_secs: u64 },
}

/// What the caller does next for the node.
pub enum NodeAction {
    /// The node passes through with an empty output.
    Pass,
    /// Call the outside service with the resolved input.
    CallService { kind: ServiceKind, input: Option<String> },
    /// The node succeeded with this output.
    Succeed(String),
    /// The node failed with this message.
    Fail(String),
    /// What the switch decided (an error when a template names a missing
    /// variable).
    Switched(Result<SwitchOutcome, EngineError>),
    /// Run these tasks at once and report how they finished.
    RunTasks { tasks: Vec<(String, String)> },
    /// What the parallel tasks come to.
    Gathered(ParallelOutcome),
    /// Read the request waited on (after a second when the wait goes on).
    Poll,
    /// What the wait comes to after a reading.
    Waited(WaitStep),
    /// The node cannot run: a template names a missing variable.
    Error(EngineError),
    /// The event does not fit the node.
    Ignored,
}

/// The views of a list of named strings.
pub open spec fn pairs_view(ps: Seq<(String, String)>) -> Seq<(Seq<char>, Seq<char>)> {
    Seq::new(ps.len(), |i: int| (ps[i].0@, ps[i].1@))
}

/// The node's step: on event `e`, the node `n`, with the variables `vars`
/// in scope, asks for action `a`.
pub open spec fn node_next(n: NodeSpec, vars: Seq<(String, String)>, e: NodeEvent, a: NodeAction) -> bool {
    match (n, e) {
        (NodeSpec::Start, NodeEvent::Begin) => a is Pass,
        (NodeSpec::End, NodeEvent::Begin) => a is Pass,
        (NodeSpec::Service { kind, input }, NodeEvent::Begin) => match input {
            None => a matches NodeAction::CallService { kind: k, input: i } && k == kind && i is None,
            Some(t) => match resolve_spec(t@, vars_view(vars)) {
                Ok(x) => a matches NodeAction::CallService { kind: k, input: Some(i) } && k == kind
                    && i@ == x,
                Err(name) => a matches NodeAction::Error(EngineError::VariableNotFound(m)) && m@
                    == name,
            },
        },
        (NodeSpec::Service { .. }, NodeEvent::ServiceDone(out)) => match out {
            Ok(v) => a matches NodeAction::Succeed(x) && x@ == v@,
            Err(m) => a matches NodeAction::Fail(x) && x@ == m@,
        },
        (NodeSpec::Switch { switch_on, cases, default_action }, NodeEvent::Begin) => a matches NodeAction::Switched(
            r,
        ) && match resolve_spec(switch_on@, vars_view(vars)) {
            Ok(v) => switch_decided(r, v, cases@, default_action, vars),
            Err(name) => r matches Err(EngineError::VariableNotFound(m)) && m@ == name,
        },
        (NodeSpec::Parallel { tasks, .. }, NodeEvent::Begin) => a matches NodeAction::RunTasks {
            tasks: t,
        } && pairs_view(t@) == pairs_view(tasks@),
        (NodeSpec::Parallel { strategy, .. }, NodeEvent::TasksDone(done)) => a matches NodeAction::Gathered(
            o,
        ) && parallel_decided(o, done_view(done@), strategy),
        (NodeSpec::Approval { .. }, NodeEvent::Begin) => a is Poll,
        (NodeSpec::Form { .. }, NodeEvent::Begin) => a is Poll,
        (NodeSpec::Approval { timeout_secs }, NodeEvent::Polled { status, elapsed_secs }) => a
            matches NodeAction::Waited(w) && w == wait_result(status, elapsed_secs, timeout_secs),
        (NodeSpec::Form { timeout_secs }, NodeEvent::Polled { status, elapsed_secs }) => a
            matches NodeAction::Waited(w) && w == wait_result(status, elapsed_secs, timeout_secs),
        _ => a is Ignored,
    }
}

/// The step of a wait after reading `status`.
pub open spec fn wait_result(status: HumanTaskStatus, elapsed_secs: u64, timeout_secs: Option<u64>) -> WaitStep {
    match status {
        HumanTaskStatus::Approved => WaitStep::Granted,
        HumanTaskStatus::Rejected => WaitStep::Refused,
        HumanTaskStatus::TimedOut => WaitStep::AlreadyTimedOut,
        HumanTaskStatus::Pending => if elapsed_secs >= max_wait(timeout_secs) {
            WaitStep::GiveUp
        } else {
            WaitStep::Wait
        },
    }
}

fn copy_pairs(v: &Vec<(String, String)>) -> (r: Vec<(String, String)>)
    ensures
        pairs_view(r@) == pairs_view(v@),
{
    let mut r: Vec<(String, String)> = Vec::new();
    let mut i: usize = 0;
    while i < v.len()
        invariant
            i <= v@.len(),
            r@.len() == i,
            forall|k: int| 0 <= k < i ==> (#[trigger] r@[k]).0@ == v@[k].0@ && r@[k].1@ == v@[k].1@,
        decreases v@.len() - i,
    {
        let (a, b) = (v[i].0.clone(), v[i].1.clone());
        r.push((a, b));
        i = i + 1;
    }
    assert(pairs_view(r@) =~= pairs_view(v@));
    r
}

/// One step of a node: on `event`, what the node `node`, with the
/// variables `vars` in scope, asks for next.
pub fn node_step(node: &NodeSpec, vars: &Vec<(String, String)>, event: NodeEvent) -> (r: NodeAction)
    ensures
        node_next(*node, vars@, event, r),
{
    match (node, event) {
        (NodeSpec::Start, NodeEvent::Begin) => NodeAction::Pass,
        (NodeSpec::End, NodeEvent::Begin) => NodeAction::Pass,
        (NodeSpec::Service { kind, input }, NodeEvent::Begin) => match input {
            None => NodeAction::CallService { kind: *kind, input: None },
            Some(t) => match resolve_template(t.as_str(), vars) {
                Ok(x) => NodeAction::CallService { kind: *kind, input: Some(x) },
                Err(e) => NodeAction::Error(e),
            },
        },
        (NodeSpec::Service { .. }, NodeEvent::ServiceDone(out)) => match out {
            Ok(v) => NodeAction::Succeed(v),
            Err(m) => NodeAction::Fail(m),
        },
        (NodeSpec::Switch { switch_on, cases, default_action }, NodeEvent::Begin) => {
            NodeAction::Switched(switch_outcome(switch_on.as_str(), cases, default_action, vars))
        },
        (NodeSpec::Parallel { tasks, .. }, NodeEvent::Begin) => NodeAction::RunTasks {
            tasks: copy_pairs(tasks),
        },
        (NodeSpec::Parallel { strategy, .. }, NodeEvent::TasksDone(done)) => NodeAction::Gathered(
            parallel_outcome(&done, *strategy),
        ),
        (NodeSpec::Approval { .. }, NodeEvent::Begin) => NodeAction::Poll,
        (NodeSpec::Form { .. }, NodeEvent::Begin) => NodeAction::Poll,
        (NodeSpec::Approval { timeout_secs }, NodeEvent::Polled { status, elapsed_secs }) => {
            NodeAction::Waited(wait_step(status, elapsed_secs, *timeout_secs))
        },
        (NodeSpec::Form { timeout_secs }, NodeEvent::Polled { status, elapsed_secs }) => {
            NodeAction::Waited(wait_step(status, elapsed_secs, *timeout_secs))
        },
        _ => NodeAction::Ignored,
    }
}

// ---------------------------------------------------------------------------
// Retrying a node
// ---------------------------------------------------------------------------

/// How many attempts of a node have failed so far.
#[derive(Clone, Copy, Debug, PartialEq, Eq, Structural)]
pub struct RetryState {
    pub failures: u32,
}

/// How an attempt of a node went.
pub enum AttemptOutcome {
    Succeeded,
    /// The attempt failed with this error text.
    Failed(String),
}

/// What the engine does after an attempt.
pub enum RetryAction {
    /// The node is done: its result records this many retries.
    Done { retry_count: u32 },
    /// Wait (the backoff before attempt `attempt`, counted from 1), then
    /// run the node again.
    Retry { attempt: u32 },
    /// Give up: the node's result is a failure with this message, recording
    /// this many retries.
    GiveUp { retry_count: u32, message: String },
}

/// The retry loop's step: from `s`, after an attempt that went `o`, with at
/// most `max_retries` retries, the loop goes to `s2` and does `a`.
pub open spec fn retry_next(s: RetryState, o: AttemptOutcome, max_retries: u32, s2: RetryState, a: RetryAction) -> bool {
    match o {
        AttemptOutcome::Succeeded => {
            &&& s2 == s
            &&& a matches RetryAction::Done { retry_count } && retry_count == s.failures
        },
        AttemptOutcome::Failed(e) => if s.failures + 1 > max_retries {
            &&& s2 == s
            &&& a matches RetryAction::GiveUp { retry_count, message } && retry_count == s.failures
                && message@ == "Failed after "@ + decimal(max_retries as nat) + " retries: "@ + e@
        } else {
            &&& s2.failures == s.failures + 1
            &&& a matches RetryAction::Retry { attempt } && attempt == s.failures + 1
        },
    }
}

/// One step of the retry loop of a node.
pub fn retry_step(state: RetryState, outcome: AttemptOutcome, max_retries: u32) -> (r: (RetryState, RetryAction))
    requires
        state.failures < u32::MAX,
    ensures
        retry_next(state, outcome, max_retries, r.0, r.1),
{
    match outcome {
        AttemptOutcome::Succeeded => (state, RetryAction::Done { retry_count: state.failures }),
        AttemptOutcome::Failed(e) => match after_failure(state.failures, max_retries) {
            RetryStep::GiveUp { retry_count } => (
                state,
                RetryAction::GiveUp {
                    retry_count,
                    message: retries_exhausted_message(max_retries, e.as_str()),
                },
            ),
            RetryStep::Retry { failures } => (RetryState { failures }, RetryAction::Retry { attempt: failures }),
        },
    }
}

/// The retry loop runs a node at most `max_retries + 1` times: after the
/// attempt that leaves no retry, a failure gives up with every retry
/// counted, and a retry is only asked for while retries are left.
pub proof fn law_retries_bounded(s: RetryState, o: AttemptOutcome, max_retries: u32, s2: RetryState, a: RetryAction)
    requires
        retry_next(s, o, max_retries, s2, a),
        s.failures <= max_retries,
    ensures
        s2.failures <= max_retries,
        a matches RetryAction::Retry { attempt } ==> attempt <= max_retries,
        s.failures == max_retries && o is Failed ==> (a matches RetryAction::GiveUp { retry_count, .. }
            && retry_count == max_retries),
{
}

/// A run of the retry loop: from no failures, each attempt's outcome leads
/// by `retry_next` to the next state and action, and the loop goes on only
/// after a `Retry`.
pub open spec fn retry_trace(
    max_retries: u32,
    outcomes: Seq<AttemptOutcome>,
    states: Seq<RetryState>,
    actions: Seq<RetryAction>,
) -> bool {
    &&& states.len() == outcomes.len() + 1
    &&& actions.len() == outcomes.len()
    &&& states[0].failures == 0
    &&& forall|i: int|
        0 <= i < outcomes.len() ==> #[trigger] retry_next(
            states[i],
            outcomes[i],
            max_retries,
            states[i + 1],
            actions[i],
        )
    &&& forall|i: int| 0 <= i < outcomes.len() - 1 ==> #[trigger] actions[i] is Retry
}

proof fn lemma_retry_prefix(
    max_retries: u32,
    outcomes: Seq<AttemptOutcome>,
    states: Seq<RetryState>,
    actions: Seq<RetryAction>,
    k: int,
)
    requires
        retry_trace(max_retries, outcomes, states, actions),
        0 <= k < outcomes.len(),
    ensures
        states[k].failures == k,
        k <= max_retries,
    decreases k,
{
    if k > 0 {
        lemma_retry_prefix(max_retries, outcomes, states, actions, k - 1);
        assert(actions[k - 1] is Retry);
        assert(retry_next(states[k - 1], outcomes[k - 1], max_retries, states[k], actions[k - 1]));
    }
}

/// The whole retry loop of a node: it runs the node at most
/// `max_retries + 1` times; when attempt `i` succeeds the result records
/// `i` retries; when every attempt up to the last allowed one fails, it
/// gives up recording `max_retries` retries, with the message of the last
/// error.
pub proof fn law_retry_sequence(
    max_retries: u32,
    outcomes: Seq<AttemptOutcome>,
    states: Seq<RetryState>,
    actions: Seq<RetryAction>,
)
    requires
        retry_trace(max_retries, outcomes, states, actions),
        outcomes.len() > 0,
    ensures
        outcomes.len() <= max_retries + 1,
        outcomes.last() is Succeeded ==> (actions.last() matches RetryAction::Done { retry_count }
            && retry_count == outcomes.len() - 1),
        outcomes.last() matches AttemptOutcome::Failed(e) ==> (if outcomes.len() == max_retries + 1 {
            actions.last() matches RetryAction::GiveUp { retry_count, message } && retry_count
                == max_retries && message@ == "Failed after "@ + decimal(max_retries as nat)
                + " retries: "@ + e@
        } else {
            actions.last() is Retry
        }),
{
    let n = outcomes.len() - 1;
    lemma_retry_prefix(max_retries, outcomes, states, actions, n);
    assert(retry_next(states[n], outcomes[n], max_retries, states[n + 1], actions[n]));
}

} // verus!
