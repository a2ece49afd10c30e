//! Decisions the engine takes inside single nodes: how a parallel node
//! gathers its tasks' outcomes, and where a vision node takes its image and
//! its provider from.

use vstd::prelude::*;

use crate::secret_primitives::{base64_decode, base64_decode_spec};
use crate::text::{comma_fields, has_prefix, lowercase_spec, split_commas, starts_with, str_eq, to_lowercase};

verus! {

// ---------------------------------------------------------------------
// Parallel nodes
// ---------------------------------------------------------------------

/// How a parallel node treats its tasks.
#[derive(Clone, Copy, Debug, PartialEq, Eq, Structural)]
pub enum ParallelStrategy {
    /// Every task must succeed; the first failure fails the node.
    WaitAll,
    /// The first task to finish ends the node.
    Race,
    /// Every task runs; failures are recorded beside the successes.
    AllSettled,
}

/// The recorded outcome of a task: its value, or the text of its failure.
#[derive(Clone, Debug, PartialEq, Eq)]
pub enum TaskRecord {
    Success(String),
    Error(String),
}

/// What a parallel node produces.
#[derive(Debug)]
pub enum ParallelOutcome {
    /// The recorded outcomes, by task id (a failure is recorded under
    /// `failed_task`).
    Results(Vec<(String, TaskRecord)>),
    /// The node failed with this message.
    Failed(String),
}

/// The view of a recorded outcome.
pub open spec fn record_view(r: TaskRecord) -> (bool, Seq<char>) {
    match r {
        TaskRecord::Success(v) => (true, v@),
        TaskRecord::Error(e) => (false, e@),
    }
}

/// The results of the tasks that finished, in the order they finished,
/// recorded one after the other: a success under its task id, a failure
/// under `failed_task`; a later record under the same key replaces an
/// earlier one. Stops after the first record under `Race`.
pub open spec fn recorded(done: Seq<(Seq<char>, Result<Seq<char>, Seq<char>>)>, strategy: ParallelStrategy) -> Map<
    Seq<char>,
    (bool, Seq<char>),
>
    decreases done.len(),
{
    if done.len() == 0 {
        Map::empty()
    } else if strategy == ParallelStrategy::Race {
        match done[0].1 {
            Ok(v) => map![done[0].0 => (true, v)],
            Err(e) => map!["failed_task"@ => (false, e)],
        }
    } else {
        let before = recorded(done.drop_last(), strategy);
        match done.last().1 {
            Ok(v) => before.insert(done.last().0, (true, v)),
            Err(e) => before.insert("failed_task"@, (false, e)),
        }
    }
}

/// The first failure among the tasks that finished, if any.
pub open spec fn first_failure(done: Seq<(Seq<char>, Result<Seq<char>, Seq<char>>)>) -> Option<Seq<char>>
    decreases done.len(),
{
    if done.len() == 0 {
        None
    } else {
        match first_failure(done.drop_last()) {
            Some(e) => Some(e),
            None => match done.last().1 {
                Err(e) => Some(e),
                Ok(_) => None,
            },
        }
    }
}

/// The view of the tasks that finished.
pub open spec fn done_view(done: Seq<(String, Result<String, String>)>) -> Seq<
    (Seq<char>, Result<Seq<char>, Seq<char>>),
> {
    Seq::new(
        done.len(),
        |i: int|
            (
                done[i].0@,
                match done[i].1 {
                    Ok(v) => Ok::<Seq<char>, Seq<char>>(v@),
                    Err(e) => Err::<Seq<char>, Seq<char>>(e@),
                },
            ),
    )
}

/// The map that a list of recorded outcomes stands for: a later entry
/// under a key replaces an earlier one.
pub open spec fn records_map(rs: Seq<(String, TaskRecord)>) -> Map<Seq<char>, (bool, Seq<char>)>
    decreases rs.len(),
{
    if rs.len() == 0 {
        Map::empty()
    } else {
        records_map(rs.drop_last()).insert(rs.last().0@, record_view(rs.last().1))
    }
}

/// `r` is what a parallel node makes of the tasks that finished, `done` in
/// the order they finished: under `WaitAll` the first failure fails the
/// node; otherwise the recorded outcomes.
pub open spec fn parallel_decided(
    r: ParallelOutcome,
    done: Seq<(Seq<char>, Result<Seq<char>, Seq<char>>)>,
    strategy: ParallelStrategy,
) -> bool {
    if strategy == ParallelStrategy::WaitAll && first_failure(done) is Some {
        r matches ParallelOutcome::Failed(m) && m@ == "Parallel task failed: "@ + first_failure(
            done,
        ).unwrap()
    } else {
        r matches ParallelOutcome::Results(rs) && records_map(rs@) == recorded(done, strategy)
    }
}

/// Gathers the outcomes of a parallel node's tasks, given in the order they
/// finished (each task's id with its resolved value or the text of its
/// failure).
pub fn parallel_outcome(done: &Vec<(String, Result<String, String>)>, strategy: ParallelStrategy) -> (r: ParallelOutcome)
    ensures
        parallel_decided(r, done_view(done@), strategy),
{
    let ghost dv = done_view(done@);
    let mut rs: Vec<(String, TaskRecord)> = Vec::new();
    let mut i: usize = 0;
    while i < done.len()
        invariant
            dv == done_view(done@),
            i <= done@.len(),
            strategy != ParallelStrategy::Race ==> records_map(rs@) == recorded(dv.take(i as int), strategy),
            strategy == ParallelStrategy::Race ==> i == 0 && rs@.len() == 0,
            strategy == ParallelStrategy::WaitAll ==> first_failure(dv.take(i as int)) is None,
        decreases done@.len() - i,
    {
        proof {
            assert(dv.take(i + 1).drop_last() =~= dv.take(i as int));
            assert(dv.take(i + 1).last() == dv[i as int]);
        }
        let key = done[i].0.clone();
        let ghost before = rs@;
        match &done[i].1 {
            Ok(v) => {
                rs.push((key, TaskRecord::Success(v.clone())));
            },
            Err(e) => {
                if strategy == ParallelStrategy::WaitAll {
                    proof {
                        lemma_first_failure_prefix(dv, i + 1, dv.len() as int);
                        assert(dv.take(dv.len() as int) =~= dv);
                    }
                    return ParallelOutcome::Failed(
                        String::from_str("Parallel task failed: ").concat(e.as_str()),
                    );
                }
                rs.push((String::from_str("failed_task"), TaskRecord::Error(e.clone())));
            },
        }
        proof {
            assert(rs@.drop_last() =~= before);
        }
        if strategy == ParallelStrategy::Race {
            proof {
                assert(records_map(rs@) =~= recorded(dv, strategy)) by {
                    assert(rs@.drop_last().len() == 0);
                    assert(records_map(rs@.drop_last()) == Map::<Seq<char>, (bool, Seq<char>)>::empty());
                }
            }
            return ParallelOutcome::Results(rs);
        }
        i = i + 1;
    }
    proof {
        assert(dv.take(done@.len() as int) =~= dv);
        if strategy == ParallelStrategy::Race {
            assert(dv.len() == 0);
        }
    }
    ParallelOutcome::Results(rs)
}

/// Once a prefix holds a failure, every longer prefix has the same first
/// failure.
proof fn lemma_first_failure_prefix(s: Seq<(Seq<char>, Result<Seq<char>, Seq<char>>)>, j: int, k: int)
    requires
        0 <= j <= k <= s.len(),
        first_failure(s.take(j)) is Some,
    ensures
        first_failure(s.take(k)) == first_failure(s.take(j)),
    decreases k - j,
{
    if k > j {
        lemma_first_failure_prefix(s, j, k - 1);
        assert(s.take(k).drop_last() =~= s.take(k - 1));
    }
}

// ---------------------------------------------------------------------
// Vision nodes
// ---------------------------------------------------------------------

/// A text variable holds the image itself (a data URL, or a long text
/// taken as Base64) rather than a file path.
pub open spec fn is_inline_image(s: Seq<char>, byte_len: nat) -> bool {
    has_prefix(s, "data:image"@) || byte_len > 1000
}

/// The Base64 payload of an inline image: what follows its last comma.
pub open spec fn inline_payload(s: Seq<char>) -> Seq<char> {
    comma_fields(s).last()
}

/// The bytes of an inline image: its payload decoded, none when it is not
/// valid Base64.
pub open spec fn inline_bytes(s: Seq<char>) -> Seq<u8> {
    match base64_decode_spec(inline_payload(s)) {
        Some(b) => b,
        None => Seq::empty(),
    }
}

/// The bytes of an image given in a text variable, or `None` when the text
/// is a file path to read.
pub fn inline_image_bytes(s: &str) -> (r: Option<Vec<u8>>)
    requires
        vstd::string::StringSliceAdditionalSpecFns::spec_bytes(s).len() <= usize::MAX,
    ensures
        is_inline_image(s@, vstd::string::StringSliceAdditionalSpecFns::spec_bytes(s).len()) ==> (r matches Some(b) && b@ == inline_bytes(s@)),
        !is_inline_image(s@, vstd::string::StringSliceAdditionalSpecFns::spec_bytes(s).len()) ==> r is None,
{
    if starts_with(s, "data:image") || s.len() > 1000 {
        let fields = split_commas(s);
        proof {
            crate::text::lemma_fields_nonempty(s@, ',');
        }
        let last = fields.len() - 1;
        match base64_decode(fields[last].as_str()) {
            Some(b) => Some(b),
            None => Some(Vec::new()),
        }
    } else {
        None
    }
}

/// The OCR engine a vision node runs on.
#[derive(Debug, PartialEq, Eq)]
pub enum VisionProvider {
    Mock,
    Tesseract,
    Surya { model_path: String },
    Paddle { model_path: String },
}

/// `r` is the provider that the name `p` (in any case) asks for, or the
/// failure message of the node.
pub open spec fn provider_chosen(r: Result<VisionProvider, String>, p: Seq<char>, model_path: Option<String>) -> bool {
    let l = lowercase_spec(p);
    if l == "mock"@ {
        r == Ok::<VisionProvider, String>(VisionProvider::Mock)
    } else if l == "tesseract"@ {
        r == Ok::<VisionProvider, String>(VisionProvider::Tesseract)
    } else if l == "surya"@ {
        match model_path {
            Some(m) => r matches Ok(VisionProvider::Surya { model_path }) && model_path@ == m@,
            None => r matches Err(e) && e@ == "Surya provider requires model_path configuration"@,
        }
    } else if l == "paddle"@ {
        match model_path {
            Some(m) => r matches Ok(VisionProvider::Paddle { model_path }) && model_path@ == m@,
            None => r matches Err(e) && e@ == "PaddleOCR provider requires model_path configuration"@,
        }
    } else {
        r matches Err(e) && e@ == "Unsupported vision provider: "@ + p
    }
}

/// The OCR provider a vision node names (`mock`, `tesseract`, `surya` or
/// `paddle`, in any case); the last two need a model path.
pub fn vision_provider(provider: &str, model_path: &Option<String>) -> (r: Result<VisionProvider, String>)
    ensures
        provider_chosen(r, provider@, *model_path),
{
    let l = to_lowercase(provider);
    let ls = l.as_str();
    if str_eq(ls, "mock") {
        Ok(VisionProvider::Mock)
    } else if str_eq(ls, "tesseract") {
        Ok(VisionProvider::Tesseract)
    } else if str_eq(ls, "surya") {
        match model_path {
            Some(m) => Ok(VisionProvider::Surya { model_path: m.clone() }),
            None => Err(String::from_str("Surya provider requires model_path configuration")),
        }
    } else if str_eq(ls, "paddle") {
        match model_path {
            Some(m) => Ok(VisionProvider::Paddle { model_path: m.clone() }),
            None => Err(String::from_str("PaddleOCR provider requires model_path configuration")),
        }
    } else {
        Err(String::from_str("Unsupported vision provider: ").concat(provider))
    }
}

} // verus!
