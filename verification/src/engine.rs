//! Execution settings of the workflow engine and the decisions it takes
//! between levels: whether to stop, pause, checkpoint, and how many nodes of
//! a level run at once.

use vstd::prelude::*;
use std::collections::HashMap;
use crate::text::{decimal, to_decimal_u64};

verus! {

broadcast use vstd::std_specs::hash::group_hash_axioms;

/// When the engine saves a checkpoint on its own.
#[derive(Clone, Copy, Debug, PartialEq, Eq, Structural)]
pub enum CheckpointFrequency {
    /// Never.
    Never,
    /// After every level.
    EveryLevel,
    /// After every `n` levels.
    EveryNLevels(usize),
    /// Whenever the number of completed nodes is a multiple of `n`.
    EveryNNodes(usize),
}

impl Default for CheckpointFrequency {
    fn default() -> (f: Self)
        ensures
            f == CheckpointFrequency::Never,
    {
        CheckpointFrequency::Never
    }
}

/// The frequency is usable: a period, where there is one, is not zero.
pub open spec fn frequency_ok(f: CheckpointFrequency) -> bool {
    match f {
        CheckpointFrequency::EveryNLevels(n) => n > 0,
        CheckpointFrequency::EveryNNodes(n) => n > 0,
        _ => true,
    }
}

/// Whether a checkpoint is due after level `level_idx` (from 0), with
/// `completed_nodes` nodes completed so far.
pub open spec fn checkpoint_due(f: CheckpointFrequency, level_idx: nat, completed_nodes: nat) -> bool {
    match f {
        CheckpointFrequency::Never => false,
        CheckpointFrequency::EveryLevel => true,
        CheckpointFrequency::EveryNLevels(n) => (level_idx + 1) % (n as nat) == 0,
        CheckpointFrequency::EveryNNodes(n) => completed_nodes % (n as nat) == 0,
    }
}

impl CheckpointFrequency {
    /// Whether a checkpoint is due after level `level_idx`, with
    /// `completed_nodes` nodes completed so far.
    pub fn should_checkpoint(&self, level_idx: usize, completed_nodes: usize) -> (b: bool)
        requires
            frequency_ok(*self),
            level_idx < usize::MAX,
        ensures
            b == checkpoint_due(*self, level_idx as nat, completed_nodes as nat),
    {
        match self {
            CheckpointFrequency::Never => false,
            CheckpointFrequency::EveryLevel => true,
            CheckpointFrequency::EveryNLevels(n) => (level_idx + 1) % *n == 0,
            CheckpointFrequency::EveryNNodes(n) => completed_nodes % *n == 0,
        }
    }
}

/// How an execution runs. The backpressure, resource-monitoring and
/// resource-limit settings are carried as given (`B`, `R`, `L`).
#[derive(Clone, Debug)]
pub struct ExecutionConfig<B, R, L> {
    /// Whether events are emitted.
    pub emit_events: bool,
    /// When checkpoints are saved.
    pub checkpoint_frequency: CheckpointFrequency,
    /// Per-node timeout in milliseconds.
    pub node_timeout_ms: Option<u64>,
    /// Most nodes of a level run at once.
    pub max_concurrent_nodes: Option<usize>,
    /// Whether a failed node lets the execution go on.
    pub continue_on_error: bool,
    /// Backpressure settings.
    pub backpressure_config: Option<B>,
    /// Resource-aware scheduling settings.
    pub resource_config: Option<R>,
    /// Resource limits.
    pub resource_limits: Option<L>,
}

/// The settings of a plain execution.
pub open spec fn plain_config<B, R, L>(c: ExecutionConfig<B, R, L>) -> bool {
    &&& !c.emit_events
    &&& c.checkpoint_frequency == CheckpointFrequency::Never
    &&& c.node_timeout_ms is None
    &&& c.max_concurrent_nodes is None
    &&& !c.continue_on_error
    &&& c.backpressure_config is None
    &&& c.resource_config is None
    &&& c.resource_limits is None
}

impl<B, R, L> Default for ExecutionConfig<B, R, L> {
    fn default() -> (c: Self)
        ensures
            plain_config(c),
    {
        ExecutionConfig {
            emit_events: false,
            checkpoint_frequency: CheckpointFrequency::Never,
            node_timeout_ms: None,
            max_concurrent_nodes: None,
            continue_on_error: false,
            backpressure_config: None,
            resource_config: None,
            resource_limits: None,
        }
    }
}

impl ExecutionConfig<(), (), ()> {
    /// The settings of a plain execution: no events, no checkpoints, no
    /// timeout, no concurrency limit, stop on the first error.
    pub fn new() -> (c: Self)
        ensures
            plain_config(c),
    {
        ExecutionConfig {
            emit_events: false,
            checkpoint_frequency: CheckpointFrequency::Never,
            node_timeout_ms: None,
            max_concurrent_nodes: None,
            continue_on_error: false,
            backpressure_config: None,
            resource_config: None,
            resource_limits: None,
        }
    }
}

impl<B, R, L> ExecutionConfig<B, R, L> {
    /// The same settings, with events emitted.
    pub fn with_events(self) -> (c: Self)
        ensures
            c == (ExecutionConfig { emit_events: true, ..self }),
    {
        ExecutionConfig { emit_events: true, ..self }
    }

    /// The same settings, with another checkpoint frequency.
    pub fn with_checkpoint_frequency(self, frequency: CheckpointFrequency) -> (c: Self)
        ensures
            c == (ExecutionConfig { checkpoint_frequency: frequency, ..self }),
    {
        ExecutionConfig { checkpoint_frequency: frequency, ..self }
    }

    /// The same settings, with a per-node timeout.
    pub fn with_node_timeout(self, timeout_ms: u64) -> (c: Self)
        ensures
            c == (ExecutionConfig { node_timeout_ms: Some(timeout_ms), ..self }),
    {
        ExecutionConfig { node_timeout_ms: Some(timeout_ms), ..self }
    }

    /// The same settings, with a concurrency limit.
    pub fn with_max_concurrent(self, max: usize) -> (c: Self)
        ensures
            c == (ExecutionConfig { max_concurrent_nodes: Some(max), ..self }),
    {
        ExecutionConfig { max_concurrent_nodes: Some(max), ..self }
    }

    /// The same settings, going on after failed nodes.
    pub fn with_continue_on_error(self) -> (c: Self)
        ensures
            c == (ExecutionConfig { continue_on_error: true, ..self }),
    {
        ExecutionConfig { continue_on_error: true, ..self }
    }

    /// The same settings, with backpressure.
    pub fn with_backpressure<B2>(self, config: B2) -> (c: ExecutionConfig<B2, R, L>)
        ensures
            c.emit_events == self.emit_events,
            c.checkpoint_frequency == self.checkpoint_frequency,
            c.node_timeout_ms == self.node_timeout_ms,
            c.max_concurrent_nodes == self.max_concurrent_nodes,
            c.continue_on_error == self.continue_on_error,
            c.backpressure_config == Some(config),
            c.resource_config == self.resource_config,
            c.resource_limits == self.resource_limits,
    {
        ExecutionConfig {
            emit_events: self.emit_events,
            checkpoint_frequency: self.checkpoint_frequency,
            node_timeout_ms: self.node_timeout_ms,
            max_concurrent_nodes: self.max_concurrent_nodes,
            continue_on_error: self.continue_on_error,
            backpressure_config: Some(config),
            resource_config: self.resource_config,
            resource_limits: self.resource_limits,
        }
    }

    /// The same settings, with resource-aware scheduling.
    pub fn with_resource_monitoring<R2>(self, config: R2) -> (c: ExecutionConfig<B, R2, L>)
        ensures
            c.emit_events == self.emit_events,
            c.checkpoint_frequency == self.checkpoint_frequency,
            c.node_timeout_ms == self.node_timeout_ms,
            c.max_concurrent_nodes == self.max_concurrent_nodes,
            c.continue_on_error == self.continue_on_error,
            c.backpressure_config == self.backpressure_config,
            c.resource_config == Some(config),
            c.resource_limits == self.resource_limits,
    {
        ExecutionConfig {
            emit_events: self.emit_events,
            checkpoint_frequency: self.checkpoint_frequency,
            node_timeout_ms: self.node_timeout_ms,
            max_concurrent_nodes: self.max_concurrent_nodes,
            continue_on_error: self.continue_on_error,
            backpressure_config: self.backpressure_config,
            resource_config: Some(config),
            resource_limits: self.resource_limits,
        }
    }

    /// The same settings, with resource limits.
    pub fn with_resource_limits<L2>(self, limits: L2) -> (c: ExecutionConfig<B, R, L2>)
        ensures
            c.emit_events == self.emit_events,
            c.checkpoint_frequency == self.checkpoint_frequency,
            c.node_timeout_ms == self.node_timeout_ms,
            c.max_concurrent_nodes == self.max_concurrent_nodes,
            c.continue_on_error == self.continue_on_error,
            c.backpressure_config == self.backpressure_config,
            c.resource_config == self.resource_config,
            c.resource_limits == Some(limits),
    {
        ExecutionConfig {
            emit_events: self.emit_events,
            checkpoint_frequency: self.checkpoint_frequency,
            node_timeout_ms: self.node_timeout_ms,
            max_concurrent_nodes: self.max_concurrent_nodes,
            continue_on_error: self.continue_on_error,
            backpressure_config: self.backpressure_config,
            resource_config: self.resource_config,
            resource_limits: Some(limits),
        }
    }
}

/// `min(a, b)`.
pub open spec fn min_nat(a: nat, b: nat) -> nat {
    if a < b {
        a
    } else {
        b
    }
}

/// How many nodes of a level of `level_len` nodes run at once: what the
/// resource monitor recommends, else the configured limit, else the whole
/// level, never more than the level.
pub open spec fn chunk_size_spec(level_len: nat, max_concurrent: Option<usize>, recommended: Option<usize>) -> nat {
    match recommended {
        Some(r) => min_nat(r as nat, level_len),
        None => match max_concurrent {
            Some(m) => min_nat(m as nat, level_len),
            None => level_len,
        },
    }
}

/// How many nodes of a level of `level_len` nodes run at once.
pub fn level_chunk_size(level_len: usize, max_concurrent: Option<usize>, recommended: Option<usize>) -> (n: usize)
    ensures
        n == chunk_size_spec(level_len as nat, max_concurrent, recommended),
{
    let want = match recommended {
        Some(r) => r,
        None => match max_concurrent {
            Some(m) => m,
            None => level_len,
        },
    };
    if want < level_len {
        want
    } else {
        level_len
    }
}

/// A resource monitor's recommendation decides how many nodes of a level
/// run at once, whatever the configured limit: `r` nodes, or the whole level
/// when it is smaller. Without a recommendation the configured limit
/// decides alike, and without either the whole level runs at once. The
/// chunk size never exceeds the level, and is positive for a non-empty
/// level with positive limits.
pub proof fn law_chunk_size(level_len: nat, max_concurrent: Option<usize>, recommended: Option<usize>)
    ensures
        recommended matches Some(r) ==> chunk_size_spec(level_len, max_concurrent, recommended) == if r
            < level_len {
            r as nat
        } else {
            level_len
        },
        max_concurrent matches Some(m) ==> (recommended is None ==> chunk_size_spec(
            level_len,
            max_concurrent,
            recommended,
        ) == if m < level_len {
            m as nat
        } else {
            level_len
        }),
        recommended is None && max_concurrent is None ==> chunk_size_spec(level_len, max_concurrent, recommended)
            == level_len,
        chunk_size_spec(level_len, max_concurrent, recommended) <= level_len,
{
}

/// The concatenation of `chunks`.
pub open spec fn flatten(chunks: Seq<Seq<u128>>) -> Seq<u128>
    decreases chunks.len(),
{
    if chunks.len() == 0 {
        Seq::empty()
    } else {
        flatten(chunks.drop_last()) + chunks.last()
    }
}

/// Cuts a level into consecutive runs of `size` nodes (the last run may be
/// shorter), the order kept.
pub fn split_level(level: &Vec<u128>, size: usize) -> (chunks: Vec<Vec<u128>>)
    requires
        size > 0,
    ensures
        flatten(Seq::new(chunks@.len(), |i: int| chunks@[i]@)) == level@,
        forall|i: int| 0 <= i < chunks@.len() ==> 0 < #[trigger] chunks@[i]@.len() <= size,
        forall|i: int| 0 <= i < chunks@.len() - 1 ==> #[trigger] chunks@[i]@.len() == size,
{
    let mut chunks: Vec<Vec<u128>> = Vec::new();
    let mut i: usize = 0;
    let n = level.len();
    proof {
        assert(Seq::new(0, |k: int| chunks@[k]@) =~= Seq::<Seq<u128>>::empty());
        assert(level@.take(0) =~= Seq::<u128>::empty());
    }
    while i < n
        invariant
            n == level@.len(),
            size > 0,
            i <= n,
            flatten(Seq::new(chunks@.len(), |k: int| chunks@[k]@)) == level@.take(i as int),
            forall|k: int| 0 <= k < chunks@.len() ==> 0 < #[trigger] chunks@[k]@.len() <= size,
            forall|k: int| 0 <= k < chunks@.len() - 1 ==> #[trigger] chunks@[k]@.len() == size,
            i < n ==> forall|k: int| 0 <= k < chunks@.len() ==> #[trigger] chunks@[k]@.len() == size,
        decreases n - i,
    {
        let end: usize = if n - i < size {
            n
        } else {
            i + size
        };
        let mut chunk: Vec<u128> = Vec::new();
        let mut j: usize = i;
        while j < end
            invariant
                i <= j <= end,
                end <= n,
                n == level@.len(),
                chunk@ == level@.subrange(i as int, j as int),
            decreases end - j,
        {
            chunk.push(level[j]);
            assert(level@.subrange(i as int, j + 1) =~= level@.subrange(i as int, j as int).push(level@[j as int]));
            j = j + 1;
        }
        let ghost before = Seq::new(chunks@.len(), |k: int| chunks@[k]@);
        chunks.push(chunk);
        proof {
            let after = Seq::new(chunks@.len(), |k: int| chunks@[k]@);
            assert(after.drop_last() =~= before);
            assert(level@.take(end as int) =~= level@.take(i as int) + level@.subrange(i as int, end as int));
        }
        i = end;
    }
    proof {
        assert(level@.take(n as int) =~= level@);
    }
    chunks
}

/// What the engine does before running a level of an execution.
#[derive(Debug, PartialEq, Eq, Structural)]
pub enum LevelGate {
    /// The execution was cancelled: stop (the cancellation is cleared).
    Cancel,
    /// The execution is paused: checkpoint and stop.
    Pause,
    /// Run the level.
    Run,
}

/// The pause and cancellation flags of running executions (each execution
/// named by its UUID as a number).
pub struct ExecutionControl {
    paused: HashMap<u128, bool>,
    cancelled: HashMap<u128, bool>,
}

/// The flag of `id` in `m`, false when unset.
pub open spec fn flag(m: Map<u128, bool>, id: u128) -> bool {
    m.contains_key(id) && m[id]
}

impl ExecutionControl {
    pub closed spec fn paused_map(&self) -> Map<u128, bool> {
        self.paused@
    }

    pub closed spec fn cancelled_map(&self) -> Map<u128, bool> {
        self.cancelled@
    }

    /// No execution paused or cancelled.
    pub fn new() -> (c: Self)
        ensures
            c.paused_map() == Map::<u128, bool>::empty(),
            c.cancelled_map() == Map::<u128, bool>::empty(),
    {
        ExecutionControl { paused: HashMap::new(), cancelled: HashMap::new() }
    }

    /// Pauses an execution.
    pub fn pause_execution(&mut self, execution_id: u128)
        ensures
            final(self).paused_map() == old(self).paused_map().insert(execution_id, true),
            final(self).cancelled_map() == old(self).cancelled_map(),
    {
        self.paused.insert(execution_id, true);
    }

    /// Resumes an execution.
    pub fn resume_execution(&mut self, execution_id: u128)
        ensures
            final(self).paused_map() == old(self).paused_map().insert(execution_id, false),
            final(self).cancelled_map() == old(self).cancelled_map(),
    {
        self.paused.insert(execution_id, false);
    }

    /// Whether an execution is paused.
    pub fn is_paused(&self, execution_id: u128) -> (b: bool)
        ensures
            b == flag(self.paused_map(), execution_id),
    {
        match self.paused.get(&execution_id) {
            Some(v) => *v,
            None => false,
        }
    }

    /// Cancels an execution.
    pub fn cancel_execution(&mut self, execution_id: u128)
        ensures
            final(self).cancelled_map() == old(self).cancelled_map().insert(execution_id, true),
            final(self).paused_map() == old(self).paused_map(),
    {
        self.cancelled.insert(execution_id, true);
    }

    /// Whether an execution is cancelled.
    pub fn is_cancelled(&self, execution_id: u128) -> (b: bool)
        ensures
            b == flag(self.cancelled_map(), execution_id),
    {
        match self.cancelled.get(&execution_id) {
            Some(v) => *v,
            None => false,
        }
    }

    /// Forgets the cancellation of an execution.
    pub fn clear_cancellation(&mut self, execution_id: u128)
        ensures
            final(self).cancelled_map() == old(self).cancelled_map().remove(execution_id),
            final(self).paused_map() == old(self).paused_map(),
    {
        self.cancelled.remove(&execution_id);
    }

    /// Decides, before a level, whether the execution stops: a cancellation
    /// wins over a pause, and is cleared as the execution stops.
    pub fn gate(&mut self, execution_id: u128) -> (g: LevelGate)
        ensures
            flag(old(self).cancelled_map(), execution_id) ==> g == LevelGate::Cancel
                && final(self).cancelled_map() == old(self).cancelled_map().remove(execution_id),
            !flag(old(self).cancelled_map(), execution_id) ==> final(self).cancelled_map() == old(
                self,
            ).cancelled_map() && g == (if flag(old(self).paused_map(), execution_id) {
                LevelGate::Pause
            } else {
                LevelGate::Run
            }),
            final(self).paused_map() == old(self).paused_map(),
    {
        if self.is_cancelled(execution_id) {
            self.clear_cancellation(execution_id);
            LevelGate::Cancel
        } else if self.is_paused(execution_id) {
            LevelGate::Pause
        } else {
            LevelGate::Run
        }
    }
}

// ---------------------------------------------------------------------------
// Assembling an engine
// ---------------------------------------------------------------------------

/// Assembles an engine from its optional parts: the approval store (`A`),
/// the form store (`F`), the checkpoint store (`C`), the event bus (`E`) and
/// the metrics collector (`M`), each carried as given.
pub struct EngineBuilder<A, F, C, E, M> {
    pub approval_store: Option<A>,
    pub form_store: Option<F>,
    pub checkpoint_store: Option<C>,
    pub event_bus: Option<E>,
    pub metrics: Option<M>,
}

/// The builder holds no part.
pub open spec fn empty_builder<A, F, C, E, M>(b: EngineBuilder<A, F, C, E, M>) -> bool {
    &&& b.approval_store is None
    &&& b.form_store is None
    &&& b.checkpoint_store is None
    &&& b.event_bus is None
    &&& b.metrics is None
}

impl<A, F, C, E, M> EngineBuilder<A, F, C, E, M> {
    /// A builder holding no part.
    pub fn new() -> (b: Self)
        ensures
            empty_builder(b),
    {
        EngineBuilder {
            approval_store: None,
            form_store: None,
            checkpoint_store: None,
            event_bus: None,
            metrics: None,
        }
    }

    /// Adds an approval store, for human-in-the-loop workflows.
    pub fn with_approval_store(self, store: A) -> (b: Self)
        ensures
            b == (EngineBuilder { approval_store: Some(store), ..self }),
    {
        EngineBuilder { approval_store: Some(store), ..self }
    }

    /// Adds a form store, for human-in-the-loop workflows.
    pub fn with_form_store(self, store: F) -> (b: Self)
        ensures
            b == (EngineBuilder { form_store: Some(store), ..self }),
    {
        EngineBuilder { form_store: Some(store), ..self }
    }

    /// Adds a checkpoint store, for pause, resume and recovery.
    pub fn with_checkpoint_store(self, store: C) -> (b: Self)
        ensures
            b == (EngineBuilder { checkpoint_store: Some(store), ..self }),
    {
        EngineBuilder { checkpoint_store: Some(store), ..self }
    }

    /// Adds an event bus for execution events.
    pub fn with_event_bus(self, bus: E) -> (b: Self)
        ensures
            b == (EngineBuilder { event_bus: Some(bus), ..self }),
    {
        EngineBuilder { event_bus: Some(bus), ..self }
    }

    /// Adds a shared metrics collector.
    pub fn with_shared_metrics(self, metrics: M) -> (b: Self)
        ensures
            b == (EngineBuilder { metrics: Some(metrics), ..self }),
    {
        EngineBuilder { metrics: Some(metrics), ..self }
    }

    /// The engine: the parts given, and no execution paused or cancelled.
    pub fn build(self) -> (e: Engine<A, F, C, E, M>)
        ensures
            e.approval_store == self.approval_store,
            e.form_store == self.form_store,
            e.checkpoint_store == self.checkpoint_store,
            e.event_bus == self.event_bus,
            e.metrics == self.metrics,
            e.control.paused_map() == Map::<u128, bool>::empty(),
            e.control.cancelled_map() == Map::<u128, bool>::empty(),
    {
        Engine {
            approval_store: self.approval_store,
            form_store: self.form_store,
            checkpoint_store: self.checkpoint_store,
            event_bus: self.event_bus,
            metrics: self.metrics,
            control: ExecutionControl::new(),
        }
    }
}

impl<A, F, C, E, M: Default> EngineBuilder<A, F, C, E, M> {
    /// Enables metrics collection with a new collector.
    pub fn with_metrics(self) -> (b: Self)
        ensures
            b.metrics is Some,
            b.approval_store == self.approval_store,
            b.form_store == self.form_store,
            b.checkpoint_store == self.checkpoint_store,
            b.event_bus == self.event_bus,
    {
        EngineBuilder { metrics: Some(M::default()), ..self }
    }
}

/// The execution engine's parts and the pause and cancellation flags of its
/// executions.
pub struct Engine<A, F, C, E, M> {
    pub approval_store: Option<A>,
    pub form_store: Option<F>,
    pub checkpoint_store: Option<C>,
    pub event_bus: Option<E>,
    pub metrics: Option<M>,
    pub control: ExecutionControl,
}

impl<A, F, C, E, M> Engine<A, F, C, E, M> {
    /// The event bus, if one was given.
    pub fn event_bus(&self) -> (r: Option<&E>)
        ensures
            r == match self.event_bus {
                Some(b) => Some(&b),
                None => None::<&E>,
            },
    {
        match &self.event_bus {
            Some(b) => Some(b),
            None => None,
        }
    }

    /// The metrics collector, if there is one.
    pub fn metrics(&self) -> (r: Option<&M>)
        ensures
            r == match self.metrics {
                Some(m) => Some(&m),
                None => None::<&M>,
            },
    {
        match &self.metrics {
            Some(m) => Some(m),
            None => None,
        }
    }
}

// ---------------------------------------------------------------------------
// Retrying a node
// ---------------------------------------------------------------------------

/// What the engine does after a node's attempt failed.
#[derive(Debug, PartialEq, Eq, Structural)]
pub enum RetryStep {
    /// Wait, then run attempt number `failures + 1` (counting from 0).
    Retry { failures: u32 },
    /// Give up: the node fails, having been retried `retry_count` times.
    GiveUp { retry_count: u32 },
}

/// The step after the failure of a node's attempt, `failures` attempts
/// having failed before it, when the node may be retried `max_retries`
/// times.
pub fn after_failure(failures: u32, max_retries: u32) -> (s: RetryStep)
    requires
        failures < u32::MAX,
    ensures
        s == (if failures + 1 > max_retries {
            RetryStep::GiveUp { retry_count: failures }
        } else {
            RetryStep::Retry { failures: (failures + 1) as u32 }
        }),
{
    let attempt = failures + 1;
    if attempt > max_retries {
        RetryStep::GiveUp { retry_count: attempt - 1 }
    } else {
        RetryStep::Retry { failures: attempt }
    }
}

/// The failure message of a node that was retried `max_retries` times.
pub fn retries_exhausted_message(max_retries: u32, error: &str) -> (m: String)
    ensures
        m@ == "Failed after "@ + decimal(max_retries as nat) + " retries: "@ + error@,
{
    let n = to_decimal_u64(max_retries as u64);
    String::from_str("Failed after ").concat(n.as_str()).concat(" retries: ").concat(error)
}

// ---------------------------------------------------------------------------
// Waiting for a human
// ---------------------------------------------------------------------------

/// The state of an approval request (or of a form).
#[derive(Clone, Copy, Debug, PartialEq, Eq, Structural)]
pub enum HumanTaskStatus {
    Pending,
    Approved,
    Rejected,
    TimedOut,
}

/// What the engine does after reading the state of a request it waits on.
#[derive(Debug, PartialEq, Eq, Structural)]
pub enum WaitStep {
    /// The request was granted: the node succeeds.
    Granted,
    /// The request was refused: the node fails.
    Refused,
    /// The wait is over: mark the request timed out; the node fails.
    GiveUp,
    /// The request had already timed out: the node fails.
    AlreadyTimedOut,
    /// Poll again after a second.
    Wait,
}

/// The step after reading `status`, `elapsed_secs` seconds into a wait of at
/// most `max_wait_secs` (one hour when the node sets no timeout).
pub fn wait_step(status: HumanTaskStatus, elapsed_secs: u64, timeout_secs: Option<u64>) -> (s: WaitStep)
    ensures
        s == match status {
            HumanTaskStatus::Approved => WaitStep::Granted,
            HumanTaskStatus::Rejected => WaitStep::Refused,
            HumanTaskStatus::TimedOut => WaitStep::AlreadyTimedOut,
            HumanTaskStatus::Pending => if elapsed_secs >= max_wait(timeout_secs) {
                WaitStep::GiveUp
            } else {
                WaitStep::Wait
            },
        },
{
    match status {
        HumanTaskStatus::Approved => WaitStep::Granted,
        HumanTaskStatus::Rejected => WaitStep::Refused,
        HumanTaskStatus::TimedOut => WaitStep::AlreadyTimedOut,
        HumanTaskStatus::Pending => {
            let limit = match timeout_secs {
                Some(t) => t,
                None => 3600,
            };
            if elapsed_secs >= limit {
                WaitStep::GiveUp
            } else {
                WaitStep::Wait
            }
        },
    }
}

/// The longest wait: the node's timeout, one hour by default.
pub open spec fn max_wait(timeout_secs: Option<u64>) -> u64 {
    match timeout_secs {
        Some(t) => t,
        None => 3600,
    }
}

/// The failure message of a wait that ran out, for an approval or a form.
pub fn wait_timeout_message(is_form: bool, max_wait_secs: u64) -> (m: String)
    ensures
        m@ == (if is_form {
            "Form submission timed out after "@
        } else {
            "Approval timed out after "@
        }) + decimal(max_wait_secs as nat) + " seconds"@,
{
    let head = if is_form {
        String::from_str("Form submission timed out after ")
    } else {
        String::from_str("Approval timed out after ")
    };
    let n = to_decimal_u64(max_wait_secs);
    head.concat(n.as_str()).concat(" seconds")
}

/// A cancelled execution is seen as cancelled until its cancellation is
/// cleared, and flags of other executions are untouched by it.
pub proof fn law_cancel_then_clear(m: Map<u128, bool>, id: u128, other: u128)
    requires
        id != other,
    ensures
        flag(m.insert(id, true), id),
        !flag(m.insert(id, true).remove(id), id),
        flag(m.insert(id, true), other) == flag(m, other),
        flag(m.remove(id), other) == flag(m, other),
{
}

} // verus!
