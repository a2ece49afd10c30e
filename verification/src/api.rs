//! Request and response shapes of the HTTP API, and the decisions its
//! handlers take around the stores: export and import formats, identifier
//! renewal on import, and tallies of optimisation suggestions.

use vstd::prelude::*;
use std::collections::HashMap;
use crate::dag::{Edge, WorkflowGraph};
use crate::text::{str_eq, trim, trim_spec};

verus! {

/// The liveness probe's answer.
#[derive(Debug)]
pub struct LivezResponse {
    pub status: &'static str,
}

/// The readiness probe's answer.
#[derive(Debug)]
pub struct ReadyzResponse {
    pub status: &'static str,
}

/// The liveness probe: the process is alive.
pub fn livez() -> (r: LivezResponse)
    ensures
        r.status@ == "alive"@,
{
    LivezResponse { status: "alive" }
}

/// The readiness probe: the service takes traffic.
pub fn readyz() -> (r: ReadyzResponse)
    ensures
        r.status@ == "ready"@,
{
    ReadyzResponse { status: "ready" }
}

/// A cost estimation request.
#[derive(Debug)]
pub struct EstimateCostRequest {
    pub avg_prompt_tokens: Option<u32>,
    pub avg_response_tokens: Option<u32>,
}

/// A test run request.
#[derive(Debug)]
pub struct TestWorkflowRequest {
    pub inputs: HashMap<String, String>,
    pub expected_output: Option<String>,
    pub timeout_ms: Option<u64>,
}

/// An approval or rejection request.
#[derive(Debug)]
pub struct ApprovalActionRequest {
    pub comments: Option<String>,
}

/// The answer to an approval or rejection.
#[derive(Debug)]
pub struct ApprovalActionResponse {
    pub success: bool,
    pub message: String,
}

// ---------------------------------------------------------------------------
// Optimisation tallies
// ---------------------------------------------------------------------------

/// The priority of an optimisation suggestion.
#[derive(Clone, Copy, Debug, PartialEq, Eq, Structural)]
pub enum Priority {
    Critical,
    High,
    Medium,
    Low,
}

/// The kind of an optimisation suggestion.
#[derive(Clone, Copy, Debug, PartialEq, Eq, Structural)]
pub enum OptimizationCategory {
    Performance,
    Cost,
    Reliability,
    Maintainability,
    Security,
}

/// Suggestions counted by priority.
#[derive(Clone, Copy, Debug)]
pub struct OptimizationsByPriority {
    pub critical: usize,
    pub high: usize,
    pub medium: usize,
    pub low: usize,
}

/// Suggestions counted by kind.
#[derive(Clone, Copy, Debug)]
pub struct OptimizationsByCategory {
    pub performance: usize,
    pub cost: usize,
    pub reliability: usize,
    pub maintainability: usize,
    pub security: usize,
}

/// How many times `x` occurs in `s`.
pub open spec fn count_of<T>(s: Seq<T>, x: T) -> nat
    decreases s.len(),
{
    if s.len() == 0 {
        0
    } else {
        count_of(s.drop_last(), x) + if s.last() == x {
            1nat
        } else {
            0nat
        }
    }
}

pub proof fn lemma_count_bound<T>(s: Seq<T>, x: T)
    ensures
        count_of(s, x) <= s.len(),
    decreases s.len(),
{
    if s.len() > 0 {
        lemma_count_bound(s.drop_last(), x);
    }
}

/// Counts suggestions by priority.
pub fn count_by_priority(ps: &Vec<Priority>) -> (r: OptimizationsByPriority)
    ensures
        r.critical == count_of(ps@, Priority::Critical),
        r.high == count_of(ps@, Priority::High),
        r.medium == count_of(ps@, Priority::Medium),
        r.low == count_of(ps@, Priority::Low),
{
    let mut r = OptimizationsByPriority { critical: 0, high: 0, medium: 0, low: 0 };
    let mut i: usize = 0;
    proof {
        assert(ps@.take(0) =~= Seq::<Priority>::empty());
    }
    while i < ps.len()
        invariant
            i <= ps@.len(),
            r.critical == count_of(ps@.take(i as int), Priority::Critical),
            r.high == count_of(ps@.take(i as int), Priority::High),
            r.medium == count_of(ps@.take(i as int), Priority::Medium),
            r.low == count_of(ps@.take(i as int), Priority::Low),
        decreases ps@.len() - i,
    {
        proof {
            assert(ps@.take(i + 1).drop_last() =~= ps@.take(i as int));
            lemma_count_bound(ps@.take(i as int), Priority::Critical);
            lemma_count_bound(ps@.take(i as int), Priority::High);
            lemma_count_bound(ps@.take(i as int), Priority::Medium);
            lemma_count_bound(ps@.take(i as int), Priority::Low);
        }
        match ps[i] {
            Priority::Critical => r.critical = r.critical + 1,
            Priority::High => r.high = r.high + 1,
            Priority::Medium => r.medium = r.medium + 1,
            Priority::Low => r.low = r.low + 1,
        }
        i = i + 1;
    }
    proof {
        assert(ps@.take(i as int) =~= ps@);
    }
    r
}

/// Counts suggestions by kind.
pub fn count_by_category(cs: &Vec<OptimizationCategory>) -> (r: OptimizationsByCategory)
    ensures
        r.performance == count_of(cs@, OptimizationCategory::Performance),
        r.cost == count_of(cs@, OptimizationCategory::Cost),
        r.reliability == count_of(cs@, OptimizationCategory::Reliability),
        r.maintainability == count_of(cs@, OptimizationCategory::Maintainability),
        r.security == count_of(cs@, OptimizationCategory::Security),
{
    let mut r = OptimizationsByCategory { performance: 0, cost: 0, reliability: 0, maintainability: 0, security: 0 };
    let mut i: usize = 0;
    proof {
        assert(cs@.take(0) =~= Seq::<OptimizationCategory>::empty());
    }
    while i < cs.len()
        invariant
            i <= cs@.len(),
            r.performance == count_of(cs@.take(i as int), OptimizationCategory::Performance),
            r.cost == count_of(cs@.take(i as int), OptimizationCategory::Cost),
            r.reliability == count_of(cs@.take(i as int), OptimizationCategory::Reliability),
            r.maintainability == count_of(cs@.take(i as int), OptimizationCategory::Maintainability),
            r.security == count_of(cs@.take(i as int), OptimizationCategory::Security),
        decreases cs@.len() - i,
    {
        proof {
            assert(cs@.take(i + 1).drop_last() =~= cs@.take(i as int));
            lemma_count_bound(cs@.take(i as int), OptimizationCategory::Performance);
            lemma_count_bound(cs@.take(i as int), OptimizationCategory::Cost);
            lemma_count_bound(cs@.take(i as int), OptimizationCategory::Reliability);
            lemma_count_bound(cs@.take(i as int), OptimizationCategory::Maintainability);
            lemma_count_bound(cs@.take(i as int), OptimizationCategory::Security);
        }
        match cs[i] {
            OptimizationCategory::Performance => r.performance = r.performance + 1,
            OptimizationCategory::Cost => r.cost = r.cost + 1,
            OptimizationCategory::Reliability => r.reliability = r.reliability + 1,
            OptimizationCategory::Maintainability => r.maintainability = r.maintainability + 1,
            OptimizationCategory::Security => r.security = r.security + 1,
        }
        i = i + 1;
    }
    proof {
        assert(cs@.take(i as int) =~= cs@);
    }
    r
}

// ---------------------------------------------------------------------------
// Export and import
// ---------------------------------------------------------------------------

/// The export query: the wanted format.
#[derive(Debug)]
pub struct ExportQuery {
    pub format: Option<String>,
}

/// An import request.
#[derive(Debug)]
pub struct ImportWorkflowRequest {
    /// The workflow, as JSON or YAML text.
    pub content: String,
    /// `json` or `yaml`.
    pub format: String,
    /// Whether the workflow gets new identifiers.
    pub generate_new_id: bool,
    /// A new name for the workflow.
    pub new_name: Option<String>,
}

/// Imports get new identifiers by default.
pub fn default_generate_id() -> (b: bool)
    ensures
        b,
{
    true
}

/// A format of workflow documents.
#[derive(Clone, Copy, Debug, PartialEq, Eq, Structural)]
pub enum DocumentFormat {
    Json,
    Yaml,
}

/// The refusal of an unknown format.
pub open spec fn invalid_format_message(f: Seq<char>) -> Seq<char> {
    "Invalid format '"@ + f + "'. Supported formats: json, yaml"@
}

/// `r` is what a format name reads as.
pub open spec fn format_read(r: Result<DocumentFormat, String>, f: Seq<char>) -> bool {
    if f == "json"@ {
        r == Ok::<DocumentFormat, String>(DocumentFormat::Json)
    } else if f == "yaml"@ {
        r == Ok::<DocumentFormat, String>(DocumentFormat::Yaml)
    } else {
        r matches Err(m) && m@ == invalid_format_message(f)
    }
}

/// Reads a format name: `json` or `yaml`.
pub fn parse_format(format: &str) -> (r: Result<DocumentFormat, String>)
    ensures
        format_read(r, format@),
{
    if str_eq(format, "json") {
        Ok(DocumentFormat::Json)
    } else if str_eq(format, "yaml") {
        Ok(DocumentFormat::Yaml)
    } else {
        Err(String::from_str("Invalid format '").concat(format).concat("'. Supported formats: json, yaml"))
    }
}

impl ExportQuery {
    /// The format an export uses: the one asked for, JSON by default.
    pub fn export_format(&self) -> (r: Result<DocumentFormat, String>)
        ensures
            format_read(
                r,
                match self.format {
                    Some(f) => f@,
                    None => "json"@,
                },
            ),
    {
        match &self.format {
            Some(f) => parse_format(f.as_str()),
            None => parse_format("json"),
        }
    }
}

impl DocumentFormat {
    /// The content type of an exported document.
    pub fn content_type(&self) -> (s: &'static str)
        ensures
            s@ == match *self {
                DocumentFormat::Json => "application/json"@,
                DocumentFormat::Yaml => "application/x-yaml"@,
            },
    {
        match self {
            DocumentFormat::Json => "application/json",
            DocumentFormat::Yaml => "application/x-yaml",
        }
    }

    /// The file extension of an exported document.
    pub fn extension(&self) -> (s: &'static str)
        ensures
            s@ == match *self {
                DocumentFormat::Json => "json"@,
                DocumentFormat::Yaml => "yaml"@,
            },
    {
        match self {
            DocumentFormat::Json => "json",
            DocumentFormat::Yaml => "yaml",
        }
    }
}

/// What an id of `nodes` becomes once node `i` is renamed `fresh[i]`: the
/// new id of the last node that had it, or itself when no node had it.
pub open spec fn renamed(nodes: Seq<u128>, fresh: Seq<u128>, x: u128) -> u128 {
    if exists|i: int| 0 <= i < nodes.len() && nodes[i] == x {
        fresh[choose|i: int|
            0 <= i < nodes.len() && nodes[i] == x && forall|j: int| i < j < nodes.len() ==> nodes[j] != x]
    } else {
        x
    }
}

fn rename(nodes: &Vec<u128>, fresh: &Vec<u128>, x: u128) -> (r: u128)
    requires
        fresh@.len() == nodes@.len(),
    ensures
        r == renamed(nodes@, fresh@, x),
{
    let mut found: Option<usize> = None;
    let mut i: usize = 0;
    while i < nodes.len()
        invariant
            fresh@.len() == nodes@.len(),
            i <= nodes@.len(),
            match found {
                None => forall|j: int| 0 <= j < i ==> nodes@[j] != x,
                Some(k) => k < i && nodes@[k as int] == x && forall|j: int| k < j < i ==> nodes@[j] != x,
            },
        decreases nodes@.len() - i,
    {
        if nodes[i] == x {
            found = Some(i);
        }
        i = i + 1;
    }
    match found {
        None => x,
        Some(k) => {
            assert(renamed(nodes@, fresh@, x) == fresh@[k as int]) by {
                let c = choose|c: int|
                    0 <= c < nodes@.len() && nodes@[c] == x && forall|j: int| c < j < nodes@.len() ==> nodes@[j] != x;
                assert(nodes@[k as int] == x);
                if c < k {
                } else if c > k {
                }
            }
            fresh[k]
        },
    }
}

/// The graph with node `i` renamed `fresh[i]` and every edge end renamed
/// alike (an end that names no node is kept).
pub fn renew_ids(graph: &WorkflowGraph, fresh: &Vec<u128>) -> (g: WorkflowGraph)
    requires
        fresh@.len() == graph.nodes@.len(),
    ensures
        g.nodes@ == fresh@,
        g.edges@.len() == graph.edges@.len(),
        forall|k: int|
            0 <= k < g.edges@.len() ==> #[trigger] g.edges@[k] == (Edge {
                from: renamed(graph.nodes@, fresh@, graph.edges@[k].from),
                to: renamed(graph.nodes@, fresh@, graph.edges@[k].to),
            }),
{
    let mut nodes: Vec<u128> = Vec::new();
    let mut i: usize = 0;
    while i < fresh.len()
        invariant
            i <= fresh@.len(),
            nodes@ == fresh@.take(i as int),
        decreases fresh@.len() - i,
    {
        nodes.push(fresh[i]);
        assert(fresh@.take(i + 1) =~= fresh@.take(i as int).push(fresh@[i as int]));
        i = i + 1;
    }
    assert(fresh@.take(fresh@.len() as int) =~= fresh@);
    let mut edges: Vec<Edge> = Vec::new();
    let mut k: usize = 0;
    while k < graph.edges.len()
        invariant
            fresh@.len() == graph.nodes@.len(),
            k <= graph.edges@.len(),
            edges@.len() == k,
            forall|j: int|
                0 <= j < k ==> #[trigger] edges@[j] == (Edge {
                    from: renamed(graph.nodes@, fresh@, graph.edges@[j].from),
                    to: renamed(graph.nodes@, fresh@, graph.edges@[j].to),
                }),
        decreases graph.edges@.len() - k,
    {
        let e = graph.edges[k];
        let from = rename(&graph.nodes, fresh, e.from);
        let to = rename(&graph.nodes, fresh, e.to);
        edges.push(Edge { from, to });
        k = k + 1;
    }
    WorkflowGraph { nodes, edges }
}

/// No id occurs twice in `s`.
pub open spec fn distinct_ids(s: Seq<u128>) -> bool {
    forall|i: int, j: int| 0 <= i < s.len() && 0 <= j < s.len() && i != j ==> s[i] != s[j]
}

/// With distinct node ids and distinct fresh ids, the renaming is a copy of
/// the graph's structure: node `i` becomes `fresh[i]`, two nodes never
/// become one, so an edge from node `i` to node `j` becomes an edge from
/// `fresh[i]` to `fresh[j]` (as `renew_ids` renames every edge end).
pub proof fn law_renaming_preserves_structure(nodes: Seq<u128>, fresh: Seq<u128>, i: int, j: int)
    requires
        nodes.len() == fresh.len(),
        distinct_ids(nodes),
        distinct_ids(fresh),
        0 <= i < nodes.len(),
        0 <= j < nodes.len(),
    ensures
        renamed(nodes, fresh, nodes[i]) == fresh[i],
        renamed(nodes, fresh, nodes[j]) == fresh[j],
        (renamed(nodes, fresh, nodes[i]) == renamed(nodes, fresh, nodes[j])) <==> i == j,
{
    lemma_renamed_node(nodes, fresh, i);
    lemma_renamed_node(nodes, fresh, j);
}

proof fn lemma_renamed_node(nodes: Seq<u128>, fresh: Seq<u128>, i: int)
    requires
        nodes.len() == fresh.len(),
        distinct_ids(nodes),
        0 <= i < nodes.len(),
    ensures
        renamed(nodes, fresh, nodes[i]) == fresh[i],
{
    let x = nodes[i];
    assert(forall|j: int| i < j < nodes.len() ==> nodes[j] != x);
    assert(exists|k: int| 0 <= k < nodes.len() && nodes[k] == x);
    let c = choose|c: int|
        0 <= c < nodes.len() && nodes[c] == x && forall|j: int| c < j < nodes.len() ==> nodes[j] != x;
    assert(0 <= c < nodes.len() && nodes[c] == x && forall|j: int| c < j < nodes.len() ==> nodes[j] != x);
    assert(c == i);
}

// ---------------------------------------------------------------------------
// Cancelling an execution
// ---------------------------------------------------------------------------

/// The state of a stored execution.
#[derive(Clone, Copy, Debug, PartialEq, Eq, Structural)]
pub enum ExecutionStatus {
    Running,
    Paused,
    Completed,
    Failed,
    Cancelled,
}

/// Whether an execution in state `s` may be cancelled; when not, the
/// message of the refusal (an invalid-state error).
pub fn cancel_check(s: ExecutionStatus) -> (r: Result<(), &'static str>)
    ensures
        match s {
            ExecutionStatus::Running | ExecutionStatus::Paused => r is Ok,
            ExecutionStatus::Completed => r matches Err(m) && m@ == "Cannot cancel completed execution"@,
            ExecutionStatus::Failed => r matches Err(m) && m@ == "Cannot cancel failed execution"@,
            ExecutionStatus::Cancelled => r matches Err(m) && m@ == "Execution already cancelled"@,
        },
{
    match s {
        ExecutionStatus::Running | ExecutionStatus::Paused => Ok(()),
        ExecutionStatus::Completed => Err("Cannot cancel completed execution"),
        ExecutionStatus::Failed => Err("Cannot cancel failed execution"),
        ExecutionStatus::Cancelled => Err("Execution already cancelled"),
    }
}

/// The state after a cancellation request: a running or paused execution
/// becomes cancelled; any other stays as it is (the request is refused).
pub open spec fn after_cancel(s: ExecutionStatus) -> ExecutionStatus {
    match s {
        ExecutionStatus::Running | ExecutionStatus::Paused => ExecutionStatus::Cancelled,
        _ => s,
    }
}

/// Handles a cancellation request on an execution in state `s`: the state to
/// store, and the refusal when it may not be cancelled.
pub fn cancel_transition(s: ExecutionStatus) -> (r: (ExecutionStatus, Result<(), &'static str>))
    ensures
        r.0 == after_cancel(s),
        r.1 is Ok <==> (s == ExecutionStatus::Running || s == ExecutionStatus::Paused),
        s == ExecutionStatus::Cancelled ==> (r.1 matches Err(m) && m@ == "Execution already cancelled"@),
{
    let c = cancel_check(s);
    match c {
        Ok(()) => (ExecutionStatus::Cancelled, c),
        Err(_) => (s, c),
    }
}

/// The state stored when the engine finishes a run with `outcome` while the
/// stored execution is in state `stored`: a cancelled execution stays
/// cancelled; otherwise the engine's outcome is stored.
pub open spec fn settled(stored: ExecutionStatus, outcome: ExecutionStatus) -> ExecutionStatus {
    if stored == ExecutionStatus::Cancelled {
        ExecutionStatus::Cancelled
    } else {
        outcome
    }
}

/// The state to store when the engine finishes a run (see `settled`).
pub fn settle_status(stored: ExecutionStatus, outcome: ExecutionStatus) -> (r: ExecutionStatus)
    ensures
        r == settled(stored, outcome),
{
    if stored == ExecutionStatus::Cancelled {
        ExecutionStatus::Cancelled
    } else {
        outcome
    }
}

/// Cancelled is final: neither a later cancellation nor the end of the run
/// changes a cancelled execution, and a further cancellation is refused as
/// already cancelled.
pub proof fn law_cancelled_is_terminal(outcome: ExecutionStatus)
    ensures
        after_cancel(ExecutionStatus::Cancelled) == ExecutionStatus::Cancelled,
        settled(ExecutionStatus::Cancelled, outcome) == ExecutionStatus::Cancelled,
        after_cancel(after_cancel(ExecutionStatus::Running)) == ExecutionStatus::Cancelled,
        settled(after_cancel(ExecutionStatus::Paused), outcome) == ExecutionStatus::Cancelled,
{
}

// ---------------------------------------------------------------------------
// Testing a workflow
// ---------------------------------------------------------------------------

/// `a` and `b` both parse as JSON documents, and the documents are equal, as
/// `serde_json` reads and compares them.
pub uninterp spec fn json_same_spec(a: Seq<char>, b: Seq<char>) -> bool;

/// Parses both texts with `serde_json::from_str` into `serde_json::Value`s
/// and compares them; false when either does not parse. The outcome is
/// named.
#[verifier::external_body]
fn json_same(a: &str, b: &str) -> (r: bool)
    ensures
        r == json_same_spec(a@, b@),
{
    match (serde_json::from_str::<serde_json::Value>(a), serde_json::from_str::<serde_json::Value>(b)) {
        (Ok(x), Ok(y)) => x == y,
        _ => false,
    }
}

/// Whether a test run passes: always without an expected output; otherwise
/// when the output equals it once both are trimmed, or when both are equal
/// JSON documents.
pub fn test_passed(output: &str, expected: &Option<String>) -> (b: bool)
    ensures
        b == match *expected {
            None => true,
            Some(e) => trim_spec(output@) == trim_spec(e@) || json_same_spec(output@, e@),
        },
{
    match expected {
        None => true,
        Some(e) => {
            if str_eq(trim(output), trim(e.as_str())) {
                true
            } else {
                json_same(output, e.as_str())
            }
        },
    }
}

} // verus!
