//! Checkpoints of paused or interrupted executions.
//!
//! A checkpoint records which nodes of an execution completed, at which
//! level the execution stood, and the results gathered so far. The execution
//! context (`C`) and node results (`R`) are carried as given.

use vstd::prelude::*;
use std::collections::HashMap;
use crate::clock::utc_now_micros;

verus! {

broadcast use vstd::std_specs::hash::group_hash_axioms;

/// Draws a random version-4 UUID (`uuid::Uuid::new_v4`), as a number.
/// Nothing is promised of the value: it is random.
#[verifier::external_body]
fn new_uuid() -> (id: u128) {
    uuid::Uuid::new_v4().as_u128()
}

/// A checkpoint of an execution (ids are UUIDs as numbers; times are
/// microseconds since the epoch).
#[derive(Debug)]
pub struct ExecutionCheckpoint<C, R> {
    pub id: u128,
    pub workflow_id: u128,
    pub execution_id: u128,
    pub context: C,
    pub completed_nodes: Vec<u128>,
    pub node_results: HashMap<u128, R>,
    pub current_level: usize,
    pub paused: bool,
    pub created_at: i64,
    pub reason: String,
}

impl<C, R> ExecutionCheckpoint<C, R> {
    /// A checkpoint with a fresh id, taken now, holding no node result yet.
    pub fn new(
        workflow_id: u128,
        execution_id: u128,
        context: C,
        completed_nodes: Vec<u128>,
        current_level: usize,
        reason: String,
    ) -> (c: Self)
        ensures
            c.workflow_id == workflow_id,
            c.execution_id == execution_id,
            c.context == context,
            c.completed_nodes@ == completed_nodes@,
            c.node_results@ == Map::<u128, R>::empty(),
            c.current_level == current_level,
            !c.paused,
            c.reason@ == reason@,
    {
        ExecutionCheckpoint {
            id: new_uuid(),
            workflow_id,
            execution_id,
            context,
            completed_nodes,
            node_results: HashMap::new(),
            current_level,
            paused: false,
            created_at: utc_now_micros(),
            reason,
        }
    }

    /// Records the result of a node (replacing an earlier one).
    pub fn add_node_result(&mut self, node_id: u128, result: R)
        ensures
            final(self).node_results@ == old(self).node_results@.insert(node_id, result),
            final(self).completed_nodes@ == old(self).completed_nodes@,
            final(self).current_level == old(self).current_level,
            final(self).paused == old(self).paused,
    {
        self.node_results.insert(node_id, result);
    }

    /// Whether a node is among the completed ones.
    pub fn is_node_completed(&self, node_id: u128) -> (b: bool)
        ensures
            b == self.completed_nodes@.contains(node_id),
    {
        let mut i: usize = 0;
        while i < self.completed_nodes.len()
            invariant
                i <= self.completed_nodes@.len(),
                forall|j: int| 0 <= j < i ==> self.completed_nodes@[j] != node_id,
            decreases self.completed_nodes@.len() - i,
        {
            if self.completed_nodes[i] == node_id {
                assert(self.completed_nodes@[i as int] == node_id);
                return true;
            }
            i = i + 1;
        }
        false
    }
}

} // verus!
