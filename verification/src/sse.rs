//! Server-sent events for execution updates: event filtering, heartbeats,
//! event ids for reconnection, and the decisions the stream takes on each
//! poll of the execution store.

use vstd::prelude::*;
use crate::text::{comma_fields, split_commas, str_eq, trim, trim_spec};

verus! {

/// The kinds of event a stream sends.
#[derive(Clone, Copy, Debug, PartialEq, Eq, Structural)]
pub enum SseEventType {
    StateChange,
    NodeComplete,
    Progress,
    Error,
    Heartbeat,
}

/// The name of an event kind on the wire.
pub open spec fn event_name(t: SseEventType) -> Seq<char> {
    match t {
        SseEventType::StateChange => "state_change"@,
        SseEventType::NodeComplete => "node_complete"@,
        SseEventType::Progress => "progress"@,
        SseEventType::Error => "error"@,
        SseEventType::Heartbeat => "heartbeat"@,
    }
}

impl SseEventType {
    /// The name of the event kind on the wire.
    pub fn as_str(&self) -> (s: &'static str)
        ensures
            s@ == event_name(*self),
    {
        match self {
            SseEventType::StateChange => "state_change",
            SseEventType::NodeComplete => "node_complete",
            SseEventType::Progress => "progress",
            SseEventType::Error => "error",
            SseEventType::Heartbeat => "heartbeat",
        }
    }
}

/// The query of a stream request.
#[derive(Debug)]
pub struct SseQuery {
    /// The event kinds wanted, comma-separated (all kinds when absent).
    pub events: Option<String>,
    /// Whether heartbeats are sent.
    pub heartbeat: bool,
    /// Seconds between heartbeats.
    pub heartbeat_interval: u64,
}

/// Heartbeats are on by default.
pub fn default_heartbeat() -> (b: bool)
    ensures
        b,
{
    true
}

/// Fifteen seconds between heartbeats by default.
pub fn default_heartbeat_interval() -> (n: u64)
    ensures
        n == 15,
{
    15
}

/// The filter `events` lets events of kind `t` through: no filter lets all
/// through, a filter lets through the kinds named by one of its
/// comma-separated fields, once trimmed.
pub open spec fn event_enabled(events: Option<String>, t: SseEventType) -> bool {
    match events {
        None => true,
        Some(e) => fields_name(comma_fields(e@), event_name(t)),
    }
}

/// One of the fields `fs`, once trimmed, is `name`.
pub open spec fn fields_name(fs: Seq<Seq<char>>, name: Seq<char>) -> bool {
    exists|i: int| 0 <= i < fs.len() && #[trigger] trim_spec(fs[i]) == name
}

impl SseQuery {
    /// Whether events of kind `event_type` are sent.
    pub fn is_event_enabled(&self, event_type: SseEventType) -> (b: bool)
        ensures
            b == event_enabled(self.events, event_type),
    {
        match &self.events {
            None => true,
            Some(e) => {
                let fields = split_commas(e.as_str());
                let name = event_type.as_str();
                let mut i: usize = 0;
                while i < fields.len()
                    invariant
                        self.events == Some(*e),
                        fields@.len() == comma_fields(e@).len(),
                        forall|k: int| 0 <= k < fields@.len() ==> #[trigger] fields@[k]@ == comma_fields(e@)[k],
                        name@ == event_name(event_type),
                        i <= fields@.len(),
                        forall|k: int| 0 <= k < i ==> trim_spec(#[trigger] comma_fields(e@)[k]) != event_name(event_type),
                    decreases fields@.len() - i,
                {
                    if str_eq(trim(fields[i].as_str()), name) {
                        assert(trim_spec(comma_fields(e@)[i as int]) == event_name(event_type));
                        assert(fields_name(comma_fields(e@), event_name(event_type)));
                        return true;
                    }
                    i = i + 1;
                }
                false
            },
        }
    }
}

/// The query of a stream over several executions.
#[derive(Debug)]
pub struct MultiStreamQuery {
    /// The execution ids, comma-separated.
    pub ids: String,
}

/// The UUID that `s` denotes, as a number (what `uuid::Uuid::parse_str`
/// accepts), if any.
pub uninterp spec fn uuid_parse_spec(s: Seq<char>) -> Option<u128>;

/// Calls `uuid::Uuid::parse_str`; its result, as a `u128`, is named.
#[verifier::external_body]
fn uuid_parse(s: &str) -> (r: Option<u128>)
    ensures
        r == uuid_parse_spec(s@),
{
    uuid::Uuid::parse_str(s).ok().map(|u| u.as_u128())
}

/// The executions a multi-stream query names: each comma-separated field,
/// trimmed, that parses as a UUID, in order.
pub open spec fn named_ids(fields: Seq<Seq<char>>) -> Seq<u128>
    decreases fields.len(),
{
    if fields.len() == 0 {
        Seq::empty()
    } else {
        let rest = named_ids(fields.drop_last());
        match uuid_parse_spec(trim_spec(fields.last())) {
            Some(u) => rest.push(u),
            None => rest,
        }
    }
}

impl MultiStreamQuery {
    /// The executions the query names (fields that are not UUIDs are skipped).
    pub fn execution_ids(&self) -> (r: Vec<u128>)
        ensures
            r@ == named_ids(comma_fields(self.ids@)),
    {
        let fields = split_commas(self.ids.as_str());
        let ghost fs = comma_fields(self.ids@);
        let mut out: Vec<u128> = Vec::new();
        let mut i: usize = 0;
        proof {
            assert(fs.take(0) =~= Seq::<Seq<char>>::empty());
        }
        while i < fields.len()
            invariant
                fs == comma_fields(self.ids@),
                fields@.len() == fs.len(),
                forall|k: int| 0 <= k < fields@.len() ==> #[trigger] fields@[k]@ == fs[k],
                i <= fields@.len(),
                out@ == named_ids(fs.take(i as int)),
            decreases fields@.len() - i,
        {
            proof {
                assert(fs.take(i + 1).drop_last() =~= fs.take(i as int));
                assert(fs.take(i + 1).last() == fs[i as int]);
            }
            match uuid_parse(trim(fields[i].as_str())) {
                Some(u) => {
                    out.push(u);
                },
                None => {},
            }
            i = i + 1;
        }
        proof {
            assert(fs.take(fields@.len() as int) =~= fs);
        }
        out
    }
}

// ---------------------------------------------------------------------------
// The stream's decisions
// ---------------------------------------------------------------------------

/// What the execution store answered for the streamed execution.
pub enum FetchOutcome {
    /// The execution exists; `state` identifies its state (two observations
    /// are the same state exactly when they are equal), `terminal` tells
    /// whether it is finished (completed, failed or cancelled).
    Found { state: String, terminal: bool },
    /// No such execution.
    NotFound,
    /// The store failed.
    Failed,
}

/// What the stream does next.
#[derive(Debug, PartialEq, Eq, Structural)]
pub enum SseAction {
    /// End the stream.
    Stop,
    /// Send a heartbeat event with this id.
    Heartbeat { id: u64 },
    /// Send a comment saying nothing changed.
    NoUpdate,
    /// Send a comment saying the update was filtered out.
    Filtered,
    /// Send an update of this kind with this id.
    Update { kind: SseEventType, id: u64 },
    /// Send an error event with this id.
    ErrorEvent { id: u64 },
}

/// The state a stream keeps between polls.
#[derive(Debug)]
pub struct SseStreamState {
    /// Id of the last event sent (the stream resumes after it).
    pub last_event_id: u64,
    /// Whether the stream is done.
    pub completed: bool,
    /// When the last heartbeat went out (microseconds on a monotonic clock).
    pub last_heartbeat: u64,
    /// The last state reported.
    pub last_state: Option<String>,
}

/// `x + 1`, wrapping at 2^64.
pub open spec fn next_id(x: u64) -> u64 {
    if x == u64::MAX {
        0
    } else {
        (x + 1) as u64
    }
}

/// A heartbeat is due at `now`.
pub open spec fn heartbeat_due(q: SseQuery, last: u64, now: u64) -> bool {
    &&& q.heartbeat
    &&& event_enabled(q.events, SseEventType::Heartbeat)
    &&& (if now >= last {
        now - last
    } else {
        0
    }) >= q.heartbeat_interval * 1_000_000
}

/// The view of an optional string.
pub open spec fn opt_seq(o: Option<String>) -> Option<Seq<char>> {
    match o {
        Some(s) => Some(s@),
        None => None,
    }
}

/// `new` and `r` are the stream's state and action after the store
/// answered `outcome` to the stream in state `old`.
pub open spec fn fetch_next(
    old: SseStreamState,
    query: SseQuery,
    outcome: FetchOutcome,
    r: SseAction,
    new: SseStreamState,
) -> bool {
    match outcome {
        FetchOutcome::Found { state, terminal } => {
            let changed = opt_seq(old.last_state) != Some(state@);
            if !changed && !event_enabled(query.events, SseEventType::Progress) {
                r == SseAction::NoUpdate && new == old
            } else {
                let kind = if changed {
                    SseEventType::StateChange
                } else {
                    SseEventType::Progress
                };
                let id = next_id(old.last_event_id);
                &&& new.last_event_id == id
                &&& new.last_heartbeat == old.last_heartbeat
                &&& opt_seq(new.last_state) == Some(state@)
                &&& new.completed == (old.completed || terminal)
                &&& r == if event_enabled(query.events, kind) {
                    SseAction::Update { kind, id }
                } else {
                    SseAction::Filtered
                }
            }
        },
        _ => {
            &&& new.last_event_id == next_id(old.last_event_id)
            &&& new.last_heartbeat == old.last_heartbeat
            &&& opt_seq(new.last_state) == opt_seq(old.last_state)
            &&& if event_enabled(query.events, SseEventType::Error) {
                r == (SseAction::ErrorEvent { id: next_id(old.last_event_id) }) && new.completed
            } else {
                r == SseAction::Stop && new.completed == old.completed
            }
        },
    }
}

/// Once the store reports a finished execution in a state the stream has not
/// recorded yet, the stream is done, whatever the filter lets through; and
/// when it reports the recorded state again, that state was recorded with
/// the same answer, so nothing changes.
pub proof fn law_finished_state_ends_stream(
    old: SseStreamState,
    query: SseQuery,
    state: String,
    r: SseAction,
    new: SseStreamState,
)
    requires
        fetch_next(old, query, FetchOutcome::Found { state, terminal: true }, r, new),
    ensures
        opt_seq(old.last_state) != Some(state@) ==> new.completed,
        event_enabled(query.events, SseEventType::Progress) ==> new.completed,
        opt_seq(new.last_state) == Some(state@),
{
}

impl SseStreamState {
    /// A fresh stream that resumes after event `last_event_id`, its
    /// heartbeat clock starting at `now`.
    pub fn new(last_event_id: u64, now: u64) -> (s: Self)
        ensures
            s.last_event_id == last_event_id,
            !s.completed,
            s.last_heartbeat == now,
            s.last_state is None,
    {
        SseStreamState { last_event_id, completed: false, last_heartbeat: now, last_state: None }
    }

    /// The first step of a poll at time `now`: the stream ends when it is
    /// done, sends a heartbeat when one is due, and otherwise (`None`) goes
    /// on to fetch the execution.
    pub fn poll(&mut self, query: &SseQuery, now: u64) -> (r: Option<SseAction>)
        ensures
            old(self).completed ==> r == Some(SseAction::Stop) && *final(self) == *old(self),
            !old(self).completed && heartbeat_due(*query, old(self).last_heartbeat, now) ==> r
                == Some(SseAction::Heartbeat { id: next_id(old(self).last_event_id) })
                && final(self).last_event_id == next_id(old(self).last_event_id)
                && final(self).last_heartbeat == now && final(self).completed == old(self).completed
                && opt_seq(final(self).last_state) == opt_seq(old(self).last_state),
            !old(self).completed && !heartbeat_due(*query, old(self).last_heartbeat, now) ==> r is None
                && *final(self) == *old(self),
    {
        if self.completed {
            return Some(SseAction::Stop);
        }
        let elapsed: u64 = if now >= self.last_heartbeat {
            now - self.last_heartbeat
        } else {
            0
        };
        if query.heartbeat && query.is_event_enabled(SseEventType::Heartbeat) && (elapsed as u128)
            >= (query.heartbeat_interval as u128) * 1_000_000 {
            self.last_heartbeat = now;
            self.last_event_id = self.last_event_id.wrapping_add(1);
            return Some(SseAction::Heartbeat { id: self.last_event_id });
        }
        None
    }

    /// The second step of a poll, on what the store answered: a changed
    /// state is reported as a state change, an unchanged one as progress
    /// when progress is wanted; a missing execution or a store failure is
    /// reported as an error and ends the stream (or ends it silently when
    /// errors are filtered out). A state that the filter holds back is still
    /// recorded, and a finished one still ends the stream.
    pub fn on_fetch(&mut self, query: &SseQuery, outcome: FetchOutcome) -> (r: SseAction)
        ensures
            fetch_next(*old(self), *query, outcome, r, *final(self)),
    {
        match outcome {
            FetchOutcome::Found { state, terminal } => {
                let changed = match &self.last_state {
                    Some(s) => !(*s == state),
                    None => true,
                };
                if !changed && !query.is_event_enabled(SseEventType::Progress) {
                    return SseAction::NoUpdate;
                }
                self.last_event_id = self.last_event_id.wrapping_add(1);
                let kind = if changed {
                    SseEventType::StateChange
                } else {
                    SseEventType::Progress
                };
                if !query.is_event_enabled(kind) {
                    self.last_state = Some(state);
                    if terminal {
                        self.completed = true;
                    }
                    return SseAction::Filtered;
                }
                self.last_state = Some(state);
                if terminal {
                    self.completed = true;
                }
                SseAction::Update { kind, id: self.last_event_id }
            },
            _ => {
                self.last_event_id = self.last_event_id.wrapping_add(1);
                if query.is_event_enabled(SseEventType::Error) {
                    self.completed = true;
                    SseAction::ErrorEvent { id: self.last_event_id }
                } else {
                    SseAction::Stop
                }
            },
        }
    }
}

// ---------------------------------------------------------------------------
// The simulated progress stream of the web interface
// ---------------------------------------------------------------------------

/// The node names the simulated progress walks through.
pub open spec fn simulated_nodes() -> Seq<Seq<char>> {
    seq!["start"@, "llm_node_1"@, "retriever_node"@, "llm_node_2"@, "end"@]
}

/// The simulated progress of one execution.
#[derive(Clone, Copy, Debug)]
pub struct ExecutionStreamState {
    /// The execution (its UUID as a number).
    pub execution_id: u128,
    /// Percent done.
    pub progress: u32,
    /// Position of the current node among the simulated nodes.
    pub current_node: usize,
}

/// One update of the simulated progress.
#[derive(Debug)]
pub struct ProgressUpdate {
    pub progress: u32,
    pub completed: bool,
    pub node: &'static str,
}

impl ExecutionStreamState {
    /// A stream at zero percent, on the first node.
    pub fn new(execution_id: u128) -> (s: Self)
        ensures
            s.execution_id == execution_id,
            s.progress == 0,
            s.current_node == 0,
    {
        ExecutionStreamState { execution_id, progress: 0, current_node: 0 }
    }

    /// The next update, or `None` once the stream is at 100 percent: the
    /// progress grows by five; the current node moves to the fifth of the
    /// progress, while it is not on the last node; a position past the nodes
    /// reads as `unknown`.
    pub fn advance(&mut self) -> (r: Option<ProgressUpdate>)
        ensures
            old(self).progress >= 100 ==> r is None && *final(self) == *old(self),
            old(self).progress < 100 ==> {
                let p = (old(self).progress + 5) as u32;
                let moved = p / 20 > old(self).current_node && old(self).current_node < 4;
                let node = if moved {
                    (p / 20) as usize
                } else {
                    old(self).current_node
                };
                &&& final(self).execution_id == old(self).execution_id
                &&& final(self).progress == p
                &&& final(self).current_node == node
                &&& r matches Some(u) && u.progress == p && u.completed == (p >= 100) && u.node@ == (
                    if node < 5 {
                        simulated_nodes()[node as int]
                    } else {
                        "unknown"@
                    })
            },
    {
        if self.progress >= 100 {
            return None;
        }
        self.progress = self.progress + 5;
        let node_progress = self.progress / 20;
        if node_progress as usize > self.current_node && self.current_node < 4 {
            self.current_node = node_progress as usize;
        }
        let node: &'static str = if self.current_node == 0 {
            "start"
        } else if self.current_node == 1 {
            "llm_node_1"
        } else if self.current_node == 2 {
            "retriever_node"
        } else if self.current_node == 3 {
            "llm_node_2"
        } else if self.current_node == 4 {
            "end"
        } else {
            "unknown"
        };
        Some(ProgressUpdate { progress: self.progress, completed: self.progress >= 100, node })
    }
}

} // verus!
