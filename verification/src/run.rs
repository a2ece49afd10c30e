//! The decisions of a workflow run, level by level, as a state machine.
//!
//! A run walks the execution levels of a workflow in order. Before each level
//! the caller consults the pause and cancellation flags (`LevelGate`); a
//! level's nodes are run in chunks of at most the concurrency limit, the
//! nodes of a chunk at once; after a level a checkpoint may be due. The
//! caller performs each action (running nodes, saving a checkpoint, emitting
//! events) and hands the outcome back as the next event.

use vstd::prelude::*;
use crate::dag::{is_level_plan, is_topological_order, law_levels_in_order_are_topological, Edge};
use crate::engine::{
    checkpoint_due, chunk_size_spec, flatten, frequency_ok, level_chunk_size, min_nat,
    CheckpointFrequency, ExecutionConfig, LevelGate,
};

verus! {

/// What a run is made of: the execution levels and the settings that steer
/// the decisions.
pub struct RunPlan {
    /// The nodes of each level, in order; the levels run one after another.
    pub levels: Vec<Vec<u128>>,
    /// Most nodes of a level run at once, when limited.
    pub max_concurrent: Option<usize>,
    /// Whether a failed node lets the run go on.
    pub continue_on_error: bool,
    /// When checkpoints are saved on their own.
    pub checkpoint_frequency: CheckpointFrequency,
    /// Whether a checkpoint store is there to save to.
    pub checkpointing: bool,
    /// Whether the run publishes events.
    pub emit_events: bool,
    /// How many nodes the workflow has (reported in progress events).
    pub total_nodes: usize,
}

/// The plan of a run of a workflow with `total_nodes` nodes in these
/// `levels`, under `config`, with a checkpoint store when `checkpointing`.
pub fn run_plan<B, R, L>(
    config: &ExecutionConfig<B, R, L>,
    levels: Vec<Vec<u128>>,
    checkpointing: bool,
    total_nodes: usize,
) -> (p: RunPlan)
    ensures
        p.levels@ == levels@,
        p.max_concurrent == config.max_concurrent_nodes,
        p.continue_on_error == config.continue_on_error,
        p.checkpoint_frequency == config.checkpoint_frequency,
        p.checkpointing == checkpointing,
        p.emit_events == config.emit_events,
        p.total_nodes == total_nodes,
{
    RunPlan {
        levels,
        max_concurrent: config.max_concurrent_nodes,
        continue_on_error: config.continue_on_error,
        checkpoint_frequency: config.checkpoint_frequency,
        checkpointing,
        emit_events: config.emit_events,
        total_nodes,
    }
}

/// The levels as sequences.
pub open spec fn levels_of(p: RunPlan) -> Seq<Seq<u128>> {
    Seq::new(p.levels@.len(), |i: int| p.levels@[i]@)
}

/// The nodes of the first `l` levels, in order.
pub open spec fn done_before(p: RunPlan, l: int) -> Seq<u128> {
    flatten(levels_of(p).take(l))
}

impl RunPlan {
    /// A plan a run can follow: no level is empty, a concurrency limit is not
    /// zero, a checkpoint period is not zero.
    pub open spec fn wf(&self) -> bool {
        &&& forall|i: int| 0 <= i < self.levels@.len() ==> #[trigger] self.levels@[i]@.len() > 0
        &&& self.max_concurrent != Some(0usize)
        &&& frequency_ok(self.checkpoint_frequency)
        &&& self.levels@.len() < usize::MAX
    }
}

/// Where a run stands.
#[derive(Clone, Copy, Debug, PartialEq, Eq, Structural)]
pub enum RunPhase {
    /// Not started.
    Begin,
    /// Waiting for the flags before level `level`.
    AtGate,
    /// A chunk of level `level` is running.
    Running,
    /// A checkpoint is being saved after the level before `level`.
    Checkpointing,
    /// Over.
    Finished,
}

/// The state a run keeps between events.
pub struct RunState {
    pub phase: RunPhase,
    /// The current level.
    pub level: usize,
    /// Where the running chunk starts in its level.
    pub sent_from: usize,
    /// Where the running chunk ends in its level.
    pub pos: usize,
    /// How many nodes of the level run at once.
    pub chunk: usize,
    /// The nodes finished so far, in order.
    pub completed: Vec<u128>,
    /// Each finished node with whether it succeeded.
    pub results: Vec<(u128, bool)>,
}

/// The node of each result.
pub open spec fn result_ids(r: Seq<(u128, bool)>) -> Seq<u128> {
    Seq::new(r.len(), |i: int| r[i].0)
}

impl RunState {
    /// The state is one the run can be in under `p`: the finished nodes are
    /// those of the levels before the current one, then the level's nodes
    /// before the running chunk, each with one result.
    pub open spec fn wf(&self, p: RunPlan) -> bool {
        &&& result_ids(self.results@) == self.completed@
        &&& match self.phase {
            RunPhase::Begin => self.level == 0 && self.completed@.len() == 0,
            RunPhase::AtGate => self.level < p.levels@.len() && self.completed@ == done_before(
                p,
                self.level as int,
            ),
            RunPhase::Running => {
                &&& self.level < p.levels@.len()
                &&& self.chunk > 0
                &&& self.sent_from < self.pos <= p.levels@[self.level as int]@.len()
                &&& self.completed@ == done_before(p, self.level as int)
                    + p.levels@[self.level as int]@.take(self.sent_from as int)
            },
            RunPhase::Checkpointing => self.level <= p.levels@.len() && self.completed@
                == done_before(p, self.level as int),
            RunPhase::Finished => true,
        }
    }

    /// A run that has not started.
    pub fn start() -> (s: Self)
        ensures
            s.phase == RunPhase::Begin,
            s.level == 0,
            s.sent_from == 0,
            s.pos == 0,
            s.chunk == 0,
            s.completed@.len() == 0,
            s.results@.len() == 0,
    {
        RunState {
            phase: RunPhase::Begin,
            level: 0,
            sent_from: 0,
            pos: 0,
            chunk: 0,
            completed: Vec::new(),
            results: Vec::new(),
        }
    }
}

/// What the caller reports.
pub enum RunEvent {
    /// Start the run.
    Start,
    /// The flags before a level, and the concurrency a resource monitor
    /// recommends, if one watches the run.
    Gate { gate: LevelGate, recommended: Option<usize> },
    /// The running chunk finished: whether each of its nodes succeeded, in
    /// the chunk's order.
    ChunkDone { ok: Vec<bool> },
    /// The checkpoint asked for was saved.
    Checkpointed,
}

/// Why a run stops early.
pub enum RunFailure {
    /// Stopped by a cancellation.
    ExecutionCancelled,
    /// The run is paused before `level`; a checkpoint of the finished nodes
    /// is saved when there is a store.
    ExecutionPaused { save_checkpoint: bool, level: usize, completed: Vec<u128> },
    /// This node failed and errors stop the run.
    NodeFailed(u128),
}

/// What the caller does next.
pub enum RunAction {
    /// Read the flags before level `level` and report them.
    AwaitGate { level: usize },
    /// Run these nodes at once and report how each went.
    RunChunk { nodes: Vec<u128> },
    /// Save a checkpoint: the run resumes at `level`, these nodes finished.
    Checkpoint { level: usize, completed: Vec<u128> },
    /// Stop the run.
    Fail(RunFailure),
    /// The run is over: one result per node, in order.
    Complete { results: Vec<(u128, bool)> },
    /// The event does not fit the state; nothing changed.
    Ignored,
}

/// The caller can report this event: a recommended concurrency is not zero.
pub open spec fn event_ok(e: RunEvent) -> bool {
    e matches RunEvent::Gate { recommended: Some(r), .. } ==> r > 0
}

/// `s2` holds the given fields.
pub open spec fn state_is(
    s2: RunState,
    phase: RunPhase,
    level: int,
    sent_from: int,
    pos: int,
    chunk: int,
    completed: Seq<u128>,
    results: Seq<(u128, bool)>,
) -> bool {
    &&& s2.phase == phase
    &&& s2.level == level
    &&& s2.sent_from == sent_from
    &&& s2.pos == pos
    &&& s2.chunk == chunk
    &&& s2.completed@ == completed
    &&& s2.results@ == results
}

/// `s2` is `s` over.
pub open spec fn finished(s: RunState, s2: RunState) -> bool {
    state_is(
        s2,
        RunPhase::Finished,
        s.level as int,
        s.sent_from as int,
        s.pos as int,
        s.chunk as int,
        s.completed@,
        s.results@,
    )
}

/// Going to level `l` with these finished nodes: wait for its flags, or,
/// past the last level, complete with the results.
pub open spec fn enter(
    p: RunPlan,
    l: int,
    completed: Seq<u128>,
    results: Seq<(u128, bool)>,
    s2: RunState,
    a: RunAction,
) -> bool {
    if l < p.levels@.len() {
        &&& state_is(s2, RunPhase::AtGate, l, 0, 0, 0, completed, results)
        &&& a matches RunAction::AwaitGate { level } && level == l
    } else {
        &&& state_is(s2, RunPhase::Finished, l, 0, 0, 0, completed, results)
        &&& a matches RunAction::Complete { results: r } && r@ == results
    }
}

/// After level `l` is done: a checkpoint when one is due and a store is
/// there, else on to the next level.
pub open spec fn after_level(
    p: RunPlan,
    l: int,
    completed: Seq<u128>,
    results: Seq<(u128, bool)>,
    s2: RunState,
    a: RunAction,
) -> bool {
    if p.checkpointing && checkpoint_due(p.checkpoint_frequency, l as nat, completed.len()) {
        &&& state_is(s2, RunPhase::Checkpointing, l + 1, 0, 0, 0, completed, results)
        &&& a matches RunAction::Checkpoint { level, completed: c } && level == l + 1 && c@
            == completed
    } else {
        enter(p, l + 1, completed, results, s2, a)
    }
}

/// The outcome of a chunk: each node with whether it succeeded.
pub open spec fn chunk_results(nodes: Seq<u128>, ok: Seq<bool>) -> Seq<(u128, bool)> {
    Seq::new(nodes.len(), |i: int| (nodes[i], ok[i]))
}

/// `j` is the first node of the chunk that failed.
pub open spec fn first_failure(ok: Seq<bool>, j: int) -> bool {
    &&& 0 <= j < ok.len()
    &&& !ok[j]
    &&& forall|k: int| 0 <= k < j ==> ok[k]
}

/// The run's step: from state `s`, on event `e`, the run goes to state `s2`
/// and asks for action `a`.
pub open spec fn run_next(p: RunPlan, s: RunState, e: RunEvent, s2: RunState, a: RunAction) -> bool {
    let ignored = state_is(
        s2,
        s.phase,
        s.level as int,
        s.sent_from as int,
        s.pos as int,
        s.chunk as int,
        s.completed@,
        s.results@,
    ) && a is Ignored;
    match e {
        RunEvent::Start => if s.phase == RunPhase::Begin {
            enter(p, 0, s.completed@, s.results@, s2, a)
        } else {
            ignored
        },
        RunEvent::Gate { gate, recommended } => if s.phase == RunPhase::AtGate {
            let lv = p.levels@[s.level as int]@;
            match gate {
                LevelGate::Cancel => finished(s, s2) && (a matches RunAction::Fail(
                    RunFailure::ExecutionCancelled,
                )),
                LevelGate::Pause => {
                    &&& finished(s, s2)
                    &&& a matches RunAction::Fail(
                        RunFailure::ExecutionPaused { save_checkpoint, level, completed },
                    ) && save_checkpoint == p.checkpointing && level == s.level && completed@
                        == s.completed@
                },
                LevelGate::Run => {
                    let c = chunk_size_spec(lv.len(), p.max_concurrent, recommended);
                    &&& state_is(
                        s2,
                        RunPhase::Running,
                        s.level as int,
                        0,
                        c as int,
                        c as int,
                        s.completed@,
                        s.results@,
                    )
                    &&& a matches RunAction::RunChunk { nodes } && nodes@ == lv.take(c as int)
                },
            }
        } else {
            ignored
        },
        RunEvent::ChunkDone { ok } => {
            if s.phase == RunPhase::Running && ok@.len() == s.pos - s.sent_from {
                let lv = p.levels@[s.level as int]@;
                let nodes = lv.subrange(s.sent_from as int, s.pos as int);
                if !p.continue_on_error && exists|j: int| first_failure(ok@, j) {
                    &&& finished(s, s2)
                    &&& a matches RunAction::Fail(RunFailure::NodeFailed(id)) && exists|j: int|
                        first_failure(ok@, j) && id == nodes[j]
                } else {
                    let completed = s.completed@ + nodes;
                    let results = s.results@ + chunk_results(nodes, ok@);
                    if s.pos < lv.len() {
                        let to = min_nat((s.pos + s.chunk) as nat, lv.len());
                        &&& state_is(
                            s2,
                            RunPhase::Running,
                            s.level as int,
                            s.pos as int,
                            to as int,
                            s.chunk as int,
                            completed,
                            results,
                        )
                        &&& a matches RunAction::RunChunk { nodes: n } && n@ == lv.subrange(
                            s.pos as int,
                            to as int,
                        )
                    } else {
                        after_level(p, s.level as int, completed, results, s2, a)
                    }
                }
            } else {
                ignored
            }
        },
        RunEvent::Checkpointed => if s.phase == RunPhase::Checkpointing {
            enter(p, s.level as int, s.completed@, s.results@, s2, a)
        } else {
            ignored
        },
    }
}

fn copy_ids(v: &Vec<u128>, from: usize, to: usize) -> (r: Vec<u128>)
    requires
        from <= to <= v@.len(),
    ensures
        r@ == v@.subrange(from as int, to as int),
{
    let mut r: Vec<u128> = Vec::new();
    let mut i = from;
    while i < to
        invariant
            from <= i <= to,
            to <= v@.len(),
            r@ == v@.subrange(from as int, i as int),
        decreases to - i,
    {
        r.push(v[i]);
        assert(v@.subrange(from as int, i + 1) =~= v@.subrange(from as int, i as int).push(v@[i as int]));
        i = i + 1;
    }
    r
}

fn copy_results(v: &Vec<(u128, bool)>) -> (r: Vec<(u128, bool)>)
    ensures
        r@ == v@,
{
    let mut r: Vec<(u128, bool)> = Vec::new();
    let mut i: usize = 0;
    while i < v.len()
        invariant
            i <= v@.len(),
            r@ == v@.take(i as int),
        decreases v@.len() - i,
    {
        r.push(v[i]);
        assert(v@.take(i + 1) =~= v@.take(i as int).push(v@[i as int]));
        i = i + 1;
    }
    assert(v@.take(v@.len() as int) =~= v@);
    r
}

proof fn lemma_done_before_next(p: RunPlan, l: int)
    requires
        0 <= l < p.levels@.len(),
    ensures
        done_before(p, l + 1) == done_before(p, l) + p.levels@[l]@,
{
    let ls = levels_of(p);
    assert(ls.take(l + 1).drop_last() =~= ls.take(l));
    assert(ls.take(l + 1).last() == p.levels@[l]@);
}

proof fn lemma_result_ids_append(r: Seq<(u128, bool)>, nodes: Seq<u128>, ok: Seq<bool>)
    requires
        nodes.len() == ok.len(),
    ensures
        result_ids(r + chunk_results(nodes, ok)) == result_ids(r) + nodes,
{
    assert(result_ids(r + chunk_results(nodes, ok)) =~= result_ids(r) + nodes);
}

/// Going to level `l`.
fn enter_level(plan: &RunPlan, l: usize, completed: Vec<u128>, results: Vec<(u128, bool)>) -> (r: (
    RunState,
    RunAction,
))
    requires
        plan.wf(),
        l <= plan.levels@.len(),
        completed@ == done_before(*plan, l as int),
        result_ids(results@) == completed@,
    ensures
        enter(*plan, l as int, completed@, results@, r.0, r.1),
        r.0.wf(*plan),
{
    if l < plan.levels.len() {
        let s = RunState { phase: RunPhase::AtGate, level: l, sent_from: 0, pos: 0, chunk: 0, completed, results };
        (s, RunAction::AwaitGate { level: l })
    } else {
        let out = copy_results(&results);
        let s = RunState { phase: RunPhase::Finished, level: l, sent_from: 0, pos: 0, chunk: 0, completed, results };
        (s, RunAction::Complete { results: out })
    }
}

/// One step of a run: from `state`, on `event`, the next state and what the
/// caller does next.
#[verifier::loop_isolation(false)]
pub fn run_step(plan: &RunPlan, state: &RunState, event: RunEvent) -> (r: (RunState, RunAction))
    requires
        plan.wf(),
        state.wf(*plan),
        event_ok(event),
    ensures
        run_next(*plan, *state, event, r.0, r.1),
        r.0.wf(*plan),
{
    let unchanged = RunState {
        phase: state.phase,
        level: state.level,
        sent_from: state.sent_from,
        pos: state.pos,
        chunk: state.chunk,
        completed: copy_ids(&state.completed, 0, state.completed.len()),
        results: copy_results(&state.results),
    };
    proof {
        assert(state.completed@.subrange(0, state.completed@.len() as int) =~= state.completed@);
    }
    match event {
        RunEvent::Start => {
            if state.phase == RunPhase::Begin {
                proof {
                    assert(levels_of(*plan).take(0) =~= Seq::<Seq<u128>>::empty());
                    assert(state.completed@ =~= done_before(*plan, 0));
                }
                enter_level(plan, 0, unchanged.completed, unchanged.results)
            } else {
                (unchanged, RunAction::Ignored)
            }
        },
        RunEvent::Gate { gate, recommended } => {
            if state.phase != RunPhase::AtGate {
                return (unchanged, RunAction::Ignored);
            }
            let mut s = unchanged;
            match gate {
                LevelGate::Cancel => {
                    s.phase = RunPhase::Finished;
                    (s, RunAction::Fail(RunFailure::ExecutionCancelled))
                },
                LevelGate::Pause => {
                    let completed = copy_ids(&state.completed, 0, state.completed.len());
                    s.phase = RunPhase::Finished;
                    (
                        s,
                        RunAction::Fail(
                            RunFailure::ExecutionPaused {
                                save_checkpoint: plan.checkpointing,
                                level: state.level,
                                completed,
                            },
                        ),
                    )
                },
                LevelGate::Run => {
                    let lv = &plan.levels[state.level];
                    let c = level_chunk_size(lv.len(), plan.max_concurrent, recommended);
                    let nodes = copy_ids(lv, 0, c);
                    proof {
                        assert(lv@.subrange(0, c as int) =~= lv@.take(c as int));
                        assert(lv@.take(0) =~= Seq::<u128>::empty());
                        assert(s.completed@ =~= done_before(*plan, s.level as int) + lv@.take(0));
                    }
                    s.phase = RunPhase::Running;
                    s.sent_from = 0;
                    s.pos = c;
                    s.chunk = c;
                    (s, RunAction::RunChunk { nodes })
                },
            }
        },
        RunEvent::ChunkDone { ok } => {
            if state.phase != RunPhase::Running || ok.len() != state.pos - state.sent_from {
                return (unchanged, RunAction::Ignored);
            }
            let lv = &plan.levels[state.level];
            let ghost nodes = lv@.subrange(state.sent_from as int, state.pos as int);
            let mut completed = unchanged.completed;
            let mut results = unchanged.results;
            let mut i: usize = 0;
            let n = ok.len();
            while i < n
                invariant
                    n == ok@.len(),
                    n == state.pos - state.sent_from,
                    state.sent_from < state.pos <= lv@.len(),
                    nodes == lv@.subrange(state.sent_from as int, state.pos as int),
                    i <= n,
                    forall|k: int| 0 <= k < i ==> ok@[k] || plan.continue_on_error,
                    completed@ == state.completed@ + nodes.take(i as int),
                    results@ == state.results@ + chunk_results(nodes.take(i as int), ok@.take(i as int)),
                decreases n - i,
            {
                let id = lv[state.sent_from + i];
                if !ok[i] && !plan.continue_on_error {
                    proof {
                        assert(first_failure(ok@, i as int));
                        assert(id == nodes[i as int]);
                    }
                    let mut s = RunState {
                        phase: RunPhase::Finished,
                        level: state.level,
                        sent_from: state.sent_from,
                        pos: state.pos,
                        chunk: state.chunk,
                        completed: copy_ids(&state.completed, 0, state.completed.len()),
                        results: copy_results(&state.results),
                    };
                    proof {
                        assert(state.completed@.subrange(0, state.completed@.len() as int)
                            =~= state.completed@);
                    }
                    return (s, RunAction::Fail(RunFailure::NodeFailed(id)));
                }
                completed.push(id);
                results.push((id, ok[i]));
                proof {
                    assert(nodes.take(i + 1) =~= nodes.take(i as int).push(id));
                    assert(completed@ =~= state.completed@ + nodes.take(i + 1));
                    assert(chunk_results(nodes.take(i + 1), ok@.take(i + 1)) =~= chunk_results(
                        nodes.take(i as int),
                        ok@.take(i as int),
                    ).push((id, ok@[i as int])));
                    assert(results@ =~= state.results@ + chunk_results(nodes.take(i + 1), ok@.take(i + 1)));
                }
                i = i + 1;
            }
            proof {
                assert(nodes.take(n as int) =~= nodes);
                assert(ok@.take(n as int) =~= ok@);
                assert(!(!plan.continue_on_error && exists|j: int| first_failure(ok@, j)));
                lemma_result_ids_append(state.results@, nodes, ok@);
                assert(done_before(*plan, state.level as int) + lv@.take(state.sent_from as int) + nodes
                    =~= done_before(*plan, state.level as int) + lv@.take(state.pos as int));
            }
            if state.pos < lv.len() {
                let rest = lv.len() - state.pos;
                let to = if state.chunk < rest {
                    state.pos + state.chunk
                } else {
                    lv.len()
                };
                let next = copy_ids(lv, state.pos, to);
                let s = RunState {
                    phase: RunPhase::Running,
                    level: state.level,
                    sent_from: state.pos,
                    pos: to,
                    chunk: state.chunk,
                    completed,
                    results,
                };
                (s, RunAction::RunChunk { nodes: next })
            } else {
                proof {
                    assert(lv@.take(state.pos as int) =~= lv@);
                    lemma_done_before_next(*plan, state.level as int);
                }
                let l = state.level;
                if plan.checkpointing && plan.checkpoint_frequency.should_checkpoint(l, completed.len()) {
                    let snapshot = copy_ids(&completed, 0, completed.len());
                    proof {
                        assert(completed@.subrange(0, completed@.len() as int) =~= completed@);
                    }
                    let s = RunState {
                        phase: RunPhase::Checkpointing,
                        level: l + 1,
                        sent_from: 0,
                        pos: 0,
                        chunk: 0,
                        completed,
                        results,
                    };
                    (s, RunAction::Checkpoint { level: l + 1, completed: snapshot })
                } else {
                    enter_level(plan, l + 1, completed, results)
                }
            }
        },
        RunEvent::Checkpointed => {
            if state.phase == RunPhase::Checkpointing {
                enter_level(plan, state.level, unchanged.completed, unchanged.results)
            } else {
                (unchanged, RunAction::Ignored)
            }
        },
    }
}

/// Why a published failure says the run failed.
pub enum FailureReason {
    /// The reason `execution_cancelled`.
    ExecutionCancelled,
    /// This node failed (the caller adds its error text).
    NodeFailed(u128),
}

/// An event a run publishes.
pub enum RunNotice {
    WorkflowStarted,
    WorkflowFailed(FailureReason),
    /// The run paused on the user's request (reason `user_requested`).
    WorkflowPaused,
    /// Level `level`, of `nodes` nodes, starts.
    LevelStarted { level: usize, nodes: usize },
    /// Level `level` is done.
    LevelCompleted { level: usize },
    /// `completed` of `total_nodes` nodes and `levels_done` of
    /// `total_levels` levels are done.
    Progress { completed: usize, total_nodes: usize, levels_done: usize, total_levels: usize },
    /// A checkpoint was saved; the run resumes at `level` (published once
    /// the caller saved it).
    CheckpointCreated { level: usize },
    /// The run completed with `completed` nodes done (the caller adds the
    /// duration).
    WorkflowCompleted { completed: usize },
}

/// The events closing level `l`, with `completed` nodes done.
pub open spec fn level_done_notices(p: RunPlan, l: int, completed: int) -> Seq<RunNotice> {
    seq![
        RunNotice::LevelCompleted { level: l as usize },
        RunNotice::Progress {
            completed: completed as usize,
            total_nodes: p.total_nodes,
            levels_done: (l + 1) as usize,
            total_levels: p.levels@.len() as usize,
        },
    ]
}

/// The events that open a step on `e` that goes on to a gate, a
/// checkpoint or the completion: the start of the run, a saved checkpoint,
/// or the end of a level.
pub open spec fn opening_notices(p: RunPlan, s: RunState, e: RunEvent) -> Seq<RunNotice> {
    match e {
        RunEvent::Start => seq![RunNotice::WorkflowStarted],
        RunEvent::Checkpointed => seq![RunNotice::CheckpointCreated { level: s.level }],
        RunEvent::ChunkDone { ok } => level_done_notices(p, s.level as int, (s.completed@.len() + ok@.len()) as int),
        _ => Seq::empty(),
    }
}

/// What the step from `s` on `e` to action `a` publishes: nothing when the
/// run publishes no events; otherwise the start of the run, a failure (a
/// cancellation with the reason `execution_cancelled`), a pause and its
/// checkpoint, the start of a level, the end of a level with the progress,
/// a saved checkpoint, and the completion.
pub open spec fn notices(p: RunPlan, s: RunState, e: RunEvent, a: RunAction) -> Seq<RunNotice> {
    if !p.emit_events {
        Seq::empty()
    } else {
        let opening = opening_notices(p, s, e);
        match a {
            RunAction::Ignored => Seq::empty(),
            RunAction::Fail(RunFailure::ExecutionCancelled) => seq![
                RunNotice::WorkflowFailed(FailureReason::ExecutionCancelled),
            ],
            RunAction::Fail(RunFailure::ExecutionPaused { save_checkpoint, level, .. }) => if save_checkpoint {
                seq![RunNotice::WorkflowPaused, RunNotice::CheckpointCreated { level }]
            } else {
                seq![RunNotice::WorkflowPaused]
            },
            RunAction::Fail(RunFailure::NodeFailed(id)) => seq![
                RunNotice::WorkflowFailed(FailureReason::NodeFailed(id)),
            ],
            RunAction::RunChunk { .. } => match e {
                RunEvent::Gate { .. } => seq![
                    RunNotice::LevelStarted {
                        level: s.level,
                        nodes: if s.level < p.levels@.len() {
                            p.levels@[s.level as int]@.len() as usize
                        } else {
                            0
                        },
                    },
                ],
                _ => Seq::empty(),
            },
            RunAction::AwaitGate { .. } => opening,
            RunAction::Checkpoint { .. } => opening,
            RunAction::Complete { results } => opening.push(
                RunNotice::WorkflowCompleted { completed: results@.len() as usize },
            ),
        }
    }
}

/// The events to publish for the step from `state` on `event` that asked
/// for `action`.
pub fn run_notices(plan: &RunPlan, state: &RunState, event: &RunEvent, action: &RunAction) -> (r: Vec<RunNotice>)
    requires
        state.level < usize::MAX,
        event matches RunEvent::ChunkDone { ok } ==> state.completed@.len() + ok@.len() <= usize::MAX,
    ensures
        r@ == notices(*plan, *state, *event, *action),
{
    let mut out: Vec<RunNotice> = Vec::new();
    if !plan.emit_events {
        return out;
    }
    let ghost opening = opening_notices(*plan, *state, *event);
    let opens = match action {
        RunAction::AwaitGate { .. } => true,
        RunAction::Checkpoint { .. } => true,
        RunAction::Complete { .. } => true,
        _ => false,
    };
    if opens {
        match event {
            RunEvent::Start => {
                out.push(RunNotice::WorkflowStarted);
            },
            RunEvent::Checkpointed => {
                out.push(RunNotice::CheckpointCreated { level: state.level });
            },
            RunEvent::ChunkDone { ok } => {
                out.push(RunNotice::LevelCompleted { level: state.level });
                out.push(
                    RunNotice::Progress {
                        completed: state.completed.len() + ok.len(),
                        total_nodes: plan.total_nodes,
                        levels_done: state.level + 1,
                        total_levels: plan.levels.len(),
                    },
                );
            },
            _ => {},
        }
        assert(out@ =~= opening);
    }
    match action {
        RunAction::Ignored => {},
        RunAction::Fail(RunFailure::ExecutionCancelled) => {
            out.push(RunNotice::WorkflowFailed(FailureReason::ExecutionCancelled));
        },
        RunAction::Fail(RunFailure::ExecutionPaused { save_checkpoint, level, .. }) => {
            out.push(RunNotice::WorkflowPaused);
            if *save_checkpoint {
                out.push(RunNotice::CheckpointCreated { level: *level });
            }
        },
        RunAction::Fail(RunFailure::NodeFailed(id)) => {
            out.push(RunNotice::WorkflowFailed(FailureReason::NodeFailed(*id)));
        },
        RunAction::RunChunk { .. } => {
            match event {
                RunEvent::Gate { .. } => {
                    let nodes = if state.level < plan.levels.len() {
                        plan.levels[state.level].len()
                    } else {
                        0
                    };
                    out.push(RunNotice::LevelStarted { level: state.level, nodes });
                },
                _ => {},
            }
        },
        RunAction::AwaitGate { .. } => {},
        RunAction::Checkpoint { .. } => {},
        RunAction::Complete { results } => {
            out.push(RunNotice::WorkflowCompleted { completed: results.len() });
        },
    }
    assert(out@ =~= notices(*plan, *state, *event, *action));
    out
}

/// A run cancelled before a level publishes, when it publishes events, one
/// failure with the reason `execution_cancelled`, and nothing else.
pub proof fn law_cancel_publishes_failure(p: RunPlan, s: RunState, recommended: Option<usize>, s2: RunState, a: RunAction)
    requires
        s.phase == RunPhase::AtGate,
        run_next(p, s, RunEvent::Gate { gate: LevelGate::Cancel, recommended }, s2, a),
    ensures
        a matches RunAction::Fail(RunFailure::ExecutionCancelled),
        s2.phase == RunPhase::Finished,
        p.emit_events ==> notices(p, s, RunEvent::Gate { gate: LevelGate::Cancel, recommended }, a)
            == seq![RunNotice::WorkflowFailed(FailureReason::ExecutionCancelled)],
        !p.emit_events ==> notices(p, s, RunEvent::Gate { gate: LevelGate::Cancel, recommended }, a).len() == 0,
{
}

/// A run that completes has exactly one result per node of the plan, level
/// after level, in order.
pub proof fn law_complete_has_every_node(p: RunPlan, s: RunState, e: RunEvent, s2: RunState, a: RunAction)
    requires
        p.wf(),
        s2.wf(p),
        run_next(p, s, e, s2, a),
        s.wf(p),
        a is Complete,
    ensures
        a matches RunAction::Complete { results } && result_ids(results@) == flatten(levels_of(p)),
{
    let ls = levels_of(p);
    assert(ls.take(ls.len() as int) =~= ls);
    if let RunEvent::ChunkDone { ok } = e {
        if s.phase == RunPhase::Running && ok@.len() == s.pos - s.sent_from {
            let lv = p.levels@[s.level as int]@;
            let nodes = lv.subrange(s.sent_from as int, s.pos as int);
            if !(!p.continue_on_error && exists|j: int| first_failure(ok@, j)) && s.pos >= lv.len() {
                lemma_result_ids_append(s.results@, nodes, ok@);
                assert(lv.take(s.sent_from as int) + nodes =~= lv);
                lemma_done_before_next(p, s.level as int);
                assert(s.completed@ + nodes =~= done_before(p, s.level as int) + lv);
            }
        }
    }
}

/// A run from its start: each step goes by `run_next` on an event the
/// caller may report.
pub open spec fn run_trace(p: RunPlan, states: Seq<RunState>, events: Seq<RunEvent>, actions: Seq<RunAction>) -> bool {
    &&& states.len() == events.len() + 1
    &&& actions.len() == events.len()
    &&& states[0].phase == RunPhase::Begin
    &&& states[0].level == 0
    &&& states[0].completed@.len() == 0
    &&& states[0].results@.len() == 0
    &&& forall|i: int| 0 <= i < events.len() ==> #[trigger] event_ok(events[i])
    &&& forall|i: int|
        0 <= i < events.len() ==> #[trigger] run_next(p, states[i], events[i], states[i + 1], actions[i])
}

/// The nodes the run asked to have run, chunk after chunk.
pub open spec fn dispatched(actions: Seq<RunAction>) -> Seq<u128>
    decreases actions.len(),
{
    if actions.len() == 0 {
        Seq::empty()
    } else {
        dispatched(actions.drop_last()) + match actions.last() {
            RunAction::RunChunk { nodes } => nodes@,
            _ => Seq::empty(),
        }
    }
}

/// The nodes finished, then those of the running chunk.
pub open spec fn started(p: RunPlan, s: RunState) -> Seq<u128> {
    if s.phase == RunPhase::Running {
        s.completed@ + p.levels@[s.level as int]@.subrange(s.sent_from as int, s.pos as int)
    } else {
        s.completed@
    }
}

proof fn lemma_step_keeps(p: RunPlan, s: RunState, e: RunEvent, s2: RunState, a: RunAction)
    requires
        p.wf(),
        s.wf(p),
        s.phase != RunPhase::Finished,
        s2.phase != RunPhase::Finished,
        event_ok(e),
        run_next(p, s, e, s2, a),
    ensures
        s2.wf(p),
        started(p, s2) == started(p, s) + match a {
            RunAction::RunChunk { nodes } => nodes@,
            _ => Seq::empty(),
        },
{
    let ls = levels_of(p);
    match e {
        RunEvent::Start => {
            if s.phase == RunPhase::Begin {
                assert(ls.take(0) =~= Seq::<Seq<u128>>::empty());
                assert(s.completed@ =~= done_before(p, 0));
                assert(result_ids(s.results@) =~= s.completed@);
            }
        },
        RunEvent::Gate { gate, recommended } => {
            if s.phase == RunPhase::AtGate {
                let lv = p.levels@[s.level as int]@;
                if gate == LevelGate::Run {
                    let c = chunk_size_spec(lv.len(), p.max_concurrent, recommended);
                    assert(lv.len() > 0);
                    assert(lv.take(0) =~= Seq::<u128>::empty());
                    assert(s2.completed@ =~= done_before(p, s.level as int) + lv.take(0));
                    assert(lv.subrange(0, c as int) =~= lv.take(c as int));
                }
            }
        },
        RunEvent::ChunkDone { ok } => {
            if s.phase == RunPhase::Running && ok@.len() == s.pos - s.sent_from {
                let lv = p.levels@[s.level as int]@;
                let nodes = lv.subrange(s.sent_from as int, s.pos as int);
                if !(!p.continue_on_error && exists|j: int| first_failure(ok@, j)) {
                    lemma_result_ids_append(s.results@, nodes, ok@);
                    assert(done_before(p, s.level as int) + lv.take(s.sent_from as int) + nodes
                        =~= done_before(p, s.level as int) + lv.take(s.pos as int));
                    if s.pos < lv.len() {
                        let to = min_nat((s.pos + s.chunk) as nat, lv.len());
                        assert(started(p, s2) =~= s.completed@ + nodes + lv.subrange(s.pos as int, to as int));
                    } else {
                        assert(lv.take(s.pos as int) =~= lv);
                        lemma_done_before_next(p, s.level as int);
                    }
                }
            }
        },
        RunEvent::Checkpointed => {},
    }
}

proof fn lemma_trace_prefix(p: RunPlan, states: Seq<RunState>, events: Seq<RunEvent>, actions: Seq<RunAction>, k: int)
    requires
        p.wf(),
        run_trace(p, states, events, actions),
        0 <= k <= events.len(),
    ensures
        states[k].phase != RunPhase::Finished ==> states[k].wf(p) && dispatched(actions.take(k))
            == started(p, states[k]),
        states[k].phase == RunPhase::Finished ==> forall|j: int|
            k <= j < events.len() ==> #[trigger] actions[j] is Ignored,
    decreases k,
{
    if k == 0 {
        assert(actions.take(0) =~= Seq::<RunAction>::empty());
        assert(result_ids(states[0].results@) =~= states[0].completed@);
        if states[0].phase == RunPhase::Finished {
        }
        lemma_finished_stays(p, states, events, actions, 0);
    } else {
        lemma_trace_prefix(p, states, events, actions, k - 1);
        let s = states[k - 1];
        let s2 = states[k];
        assert(run_next(p, states[k - 1], events[k - 1], states[(k - 1) + 1], actions[k - 1]));
        assert(states[(k - 1) + 1] == s2);
        assert(event_ok(events[k - 1]));
        assert(actions.take(k).drop_last() =~= actions.take(k - 1));
        assert(actions.take(k).last() == actions[k - 1]);
        if s.phase != RunPhase::Finished && s2.phase != RunPhase::Finished {
            lemma_step_keeps(p, s, events[k - 1], s2, actions[k - 1]);
        }
        if s.phase == RunPhase::Finished {
            assert(actions[k - 1] is Ignored);
        }
        lemma_finished_stays(p, states, events, actions, k);
    }
}

proof fn lemma_finished_stays(p: RunPlan, states: Seq<RunState>, events: Seq<RunEvent>, actions: Seq<RunAction>, k: int)
    requires
        run_trace(p, states, events, actions),
        0 <= k <= events.len(),
    ensures
        states[k].phase == RunPhase::Finished ==> forall|j: int|
            k <= j < events.len() ==> #[trigger] actions[j] is Ignored,
    decreases events.len() - k,
{
    if k < events.len() {
        lemma_finished_stays(p, states, events, actions, k + 1);
        if states[k].phase == RunPhase::Finished {
            assert(run_next(p, states[k], events[k], states[k + 1], actions[k]));
            assert(actions[k] is Ignored);
            assert(states[k + 1].phase == RunPhase::Finished);
        }
    }
}

/// A whole run that ends complete asked to have every node of the plan run
/// exactly once, level after level in order, each chunk only once the
/// chunks before it finished, and has one result per node in that order.
/// When the levels are the execution levels of a workflow graph, that order
/// is a topological order: every node runs after its predecessors.
pub proof fn law_run_runs_every_node_once(
    p: RunPlan,
    states: Seq<RunState>,
    events: Seq<RunEvent>,
    actions: Seq<RunAction>,
)
    requires
        p.wf(),
        run_trace(p, states, events, actions),
        events.len() > 0,
        actions.last() is Complete,
    ensures
        dispatched(actions) == flatten(levels_of(p)),
        actions.last() matches RunAction::Complete { results } && result_ids(results@) == flatten(
            levels_of(p),
        ),
{
    let n = events.len() - 1;
    lemma_trace_prefix(p, states, events, actions, n);
    let s = states[n];
    assert(run_next(p, s, events[n], states[n + 1], actions[n]));
    assert(s.phase != RunPhase::Finished);
    assert(actions.drop_last() =~= actions.take(n));
    let ls = levels_of(p);
    assert(ls.take(ls.len() as int) =~= ls);
    match events[n] {
        RunEvent::ChunkDone { ok } => {
            let lv = p.levels@[s.level as int]@;
            let nodes = lv.subrange(s.sent_from as int, s.pos as int);
            lemma_result_ids_append(s.results@, nodes, ok@);
            assert(lv.take(s.sent_from as int) + nodes =~= lv);
            lemma_done_before_next(p, s.level as int);
            assert(s.completed@ + nodes =~= done_before(p, s.level as int) + lv);
        },
        RunEvent::Start => {
            assert(ls.take(0) =~= Seq::<Seq<u128>>::empty());
            assert(result_ids(s.results@) =~= s.completed@);
        },
        _ => {},
    }
}

/// With the execution levels of a workflow graph as the plan, a run that
/// ends complete ran its nodes in a topological order.
pub proof fn law_run_respects_dependencies(
    p: RunPlan,
    states: Seq<RunState>,
    events: Seq<RunEvent>,
    actions: Seq<RunAction>,
    nodes: Seq<u128>,
    edges: Seq<Edge>,
)
    requires
        p.wf(),
        run_trace(p, states, events, actions),
        events.len() > 0,
        actions.last() is Complete,
        nodes.no_duplicates(),
        is_level_plan(nodes, edges, levels_of(p)),
    ensures
        is_topological_order(nodes, edges, dispatched(actions)),
{
    law_run_runs_every_node_once(p, states, events, actions);
    law_levels_in_order_are_topological(nodes, edges, levels_of(p));
}

} // verus!
