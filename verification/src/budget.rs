//! The budget calculator: given the token counts and the two limits, it
//! decides whether the prompt must be split and, if so, how many tokens of the
//! overall budget remain for the splittable field in each chunk.

use vstd::prelude::*;

verus! {

/// The token budget left for the splittable field's content in each chunk,
/// once the fixed overhead (which every chunk repeats) is paid for: the
/// overall limit minus the tokens of everything except the splittable field.
pub open spec fn spec_remaining(total_tokens: int, chunkable_tokens: int, total_limit: int) -> int {
    total_limit - (total_tokens - chunkable_tokens)
}

/// What the budget calculator decides about a prompt.
#[derive(Debug)]
pub enum BudgetDecision {
    /// The whole prompt fits under the overall limit: one message pair,
    /// nothing split.
    NoSplit,
    /// The prompt must be split, and each chunk of the splittable field may
    /// carry this many tokens.
    Split { remaining: u64 },
    /// The fixed overhead leaves less room per chunk than the per-chunk limit
    /// asks for: splitting would be unproductive.
    Exceeded,
}

/// Decides whether the prompt needs splitting. A prompt within the overall
/// limit short-circuits to a single chunk; otherwise the remaining per-chunk
/// budget for the splittable field is computed, and a remainder under the
/// per-chunk limit is rejected.
pub fn compute_budget(
    total_tokens: u64,
    chunkable_tokens: u64,
    total_limit: u64,
    chunk_limit: u64,
) -> (r: BudgetDecision)
    requires
        1 <= total_limit,
        1 <= chunk_limit,
    ensures
        r is NoSplit <==> total_tokens <= total_limit,
        r is Exceeded <==> total_tokens > total_limit && spec_remaining(
            total_tokens as int,
            chunkable_tokens as int,
            total_limit as int,
        ) < chunk_limit,
        r matches BudgetDecision::Split { remaining } ==> {
            &&& total_tokens > total_limit
            &&& remaining == spec_remaining(
                total_tokens as int,
                chunkable_tokens as int,
                total_limit as int,
            )
            &&& chunk_limit <= remaining
            &&& remaining < chunkable_tokens
        },
{
    if total_tokens <= total_limit {
        return BudgetDecision::NoSplit;
    }
    let remaining: i128 = total_limit as i128 - (total_tokens as i128 - chunkable_tokens as i128);
    if remaining < chunk_limit as i128 {
        return BudgetDecision::Exceeded;
    }
    // Here total_tokens >= total_limit + 1, so the remainder is less than
    // chunkable_tokens and fits the narrower type.
    BudgetDecision::Split { remaining: remaining as u64 }
}

} // verus!
