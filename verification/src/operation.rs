//! The course of an operation: embed the text, search the cache, and on a
//! miss fetch from the upstream and write the answer back.
//!
//! A search hands back the live entries, the most similar first. An entry
//! answers a query where its similarity is above 0.95; an operation whose
//! entries differ by their options asks in addition for its own tag and for
//! equal parameters. A failure ends the operation at every stage but the
//! last: an answer that was fetched is handed out whether or not it could be
//! written back.

use crate::cache::Query;
use crate::json::{Json, JsonView};
use crate::single::Single;
use vstd::prelude::*;

verus! {

/// The bits of 0.95, above which a similarity makes a hit.
pub const HIT_THRESHOLD_BITS: u32 = 0x3f73_3333;

/// Whether a similarity is above the threshold. One that is not a number is
/// not.
pub open spec fn similar_enough(similarity: Single) -> bool {
    (Single { bits: HIT_THRESHOLD_BITS }).lt(similarity)
}

/// Whether an entry answers a query of the operation `action` with the
/// parameters `params`: it is similar enough, was produced by that
/// operation, and holds parameters that are the same.
pub open spec fn answers(entry: (Query, Single), action: Seq<char>, params: JsonView) -> bool {
    &&& similar_enough(entry.1)
    &&& entry.0.action@ == action
    &&& entry.0.params matches Some(held)
    &&& held@ == params
}

/// Whether a similarity is above the threshold.
pub fn is_similar_enough(similarity: &Single) -> (enough: bool)
    ensures
        enough == similar_enough(*similarity),
{
    Single::from_bits(HIT_THRESHOLD_BITS).less_than(similarity)
}

/// The index of the entry that answers a query by similarity alone: the
/// first of the ranking, where it is similar enough.
pub fn best_hit(results: &Vec<(Query, Single)>) -> (hit: Option<usize>)
    ensures
        hit == if results@.len() > 0 && similar_enough(results@[0].1) {
            Some(0usize)
        } else {
            None
        },
{
    if results.len() > 0 && is_similar_enough(&results[0].1) {
        Some(0)
    } else {
        None
    }
}

/// The index of the entry that answers a query of the operation `action`
/// with the parameters `params`: the first in the ranking that does.
pub fn matching_hit(results: &Vec<(Query, Single)>, action: &str, params: &Json) -> (hit: Option<
    usize,
>)
    ensures
        hit matches Some(at) ==> at < results@.len() && answers(
            results@[at as int],
            action@,
            params@,
        ),
        hit matches Some(at) ==> forall|k: int|
            0 <= k < at ==> !answers(#[trigger] results@[k], action@, params@),
        hit is None ==> forall|k: int|
            0 <= k < results@.len() ==> !answers(#[trigger] results@[k], action@, params@),
{
    let tag = String::from_str(action);
    let mut i: usize = 0;
    while i < results.len()
        invariant
            i <= results.len(),
            tag@ == action@,
            forall|k: int| 0 <= k < i ==> !answers(#[trigger] results@[k], action@, params@),
        decreases results.len() - i,
    {
        if is_similar_enough(&results[i].1) && results[i].0.action == tag {
            let same = match &results[i].0.params {
                Some(held) => held.same_as(params),
                None => false,
            };
            if same {
                return Some(i);
            }
        }
        i += 1;
    }
    None
}

/// The stages of an operation.
#[derive(Clone, Copy, Debug, PartialEq, Eq)]
pub enum Stage {
    /// The text is turned into an embedding.
    Embedding,
    /// The cache is searched for similar entries.
    Lookup,
    /// The answer is fetched from the upstream.
    Fetch,
    /// The answer is written into the cache.
    Store,
}

/// Whether a failure at a stage ends the operation. It does before an answer
/// is at hand: in the embedding, in the lookup and in the fetch. A failure to
/// write the answer back does not.
pub open spec fn fatal_at(stage: Stage) -> bool {
    !(stage is Store)
}

/// Whether a failure at a stage ends the operation.
pub fn is_fatal(stage: Stage) -> (fatal: bool)
    ensures
        fatal == fatal_at(stage),
{
    match stage {
        Stage::Store => false,
        _ => true,
    }
}

} // verus!
