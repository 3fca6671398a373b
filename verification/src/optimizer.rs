//! The chunk size optimizer: given the splittable field's token count and the
//! per-chunk budget, it picks the fewest chunks an even integer split allows
//! and the token size of each such chunk.

use crate::errors::PromptizeError;
use vstd::arithmetic::div_mod::{
    lemma_div_basics_5, lemma_div_by_self, lemma_div_is_ordered,
    lemma_div_is_ordered_by_denominator, lemma_div_multiples_vanish, lemma_div_pos_is_pos,
    lemma_fundamental_div_mod, lemma_mod_bound,
};
use vstd::prelude::*;

verus! {

/// The fewest chunks that can cover `total` tokens when each chunk may hold at
/// most `limit` tokens: the ceiling of `total / limit`.
pub open spec fn spec_num_chunks(total: int, limit: int) -> int {
    (total - 1) / limit + 1
}

/// The even integer split of `total` tokens over `spec_num_chunks(total, limit)`
/// chunks, using truncating division.
pub open spec fn spec_chunk_size(total: int, limit: int) -> int {
    total / spec_num_chunks(total, limit)
}

/// The optimizer's outcome: how many chunks, and how many tokens each chunk
/// of the splittable field may carry.
#[derive(Debug)]
pub struct ChunkSplit {
    pub num_chunks: u64,
    pub chunk_size_tokens: u64,
}

/// Splitting `total` tokens evenly over the ceiling of `total / limit` chunks
/// always respects the per-chunk limit, and both parts of the split are
/// positive and at most `total`.
pub proof fn lemma_even_split_respects_limit(total: int, limit: int)
    requires
        1 <= total,
        1 <= limit,
    ensures
        1 <= spec_num_chunks(total, limit) <= total,
        1 <= spec_chunk_size(total, limit) <= limit,
        spec_chunk_size(total, limit) <= total,
{
    let n = spec_num_chunks(total, limit);
    let q = (total - 1) / limit;
    let r = (total - 1) % limit;
    lemma_div_pos_is_pos(total - 1, limit);
    lemma_fundamental_div_mod(total - 1, limit);
    lemma_mod_bound(total - 1, limit);
    // total - 1 == limit * q + r with 0 <= r < limit, so q <= total - 1.
    assert(q <= limit * q) by (nonlinear_arith)
        requires
            0 <= q,
            1 <= limit,
    ;
    assert(1 <= n <= total);
    // n * limit >= total, because r is at most limit - 1.
    assert((q + 1) * limit == limit * q + limit) by (nonlinear_arith);
    assert(n * limit >= total);
    // Hence total / n <= (n * limit) / n == limit.
    lemma_div_is_ordered(total, n * limit, n);
    lemma_div_multiples_vanish(limit, n);
    assert(n * limit == limit * n) by (nonlinear_arith);
    assert(spec_chunk_size(total, limit) <= limit);
    // And total / n >= total / total == 1 because n <= total.
    lemma_div_is_ordered_by_denominator(total, n, total);
    lemma_div_by_self(total);
    assert(1 <= spec_chunk_size(total, limit));
    lemma_div_basics_5(total, n);
    assert(spec_chunk_size(total, limit) <= total);
}

/// Raising the per-chunk budget never raises the number of chunks the even
/// split uses.
pub proof fn lemma_num_chunks_monotone(total: int, limit1: int, limit2: int)
    requires
        1 <= total,
        1 <= limit1 <= limit2,
    ensures
        spec_num_chunks(total, limit2) <= spec_num_chunks(total, limit1),
{
    lemma_div_is_ordered_by_denominator(total - 1, limit1, limit2);
}

/// Computes the token size of each chunk of the splittable field: the fewest
/// chunks that could fit under `limit` are tried first, and the count is grown
/// until the even split respects `limit`. A zero `total` or `limit` is
/// rejected before the search runs.
pub fn get_chunk_size_tokens(total: u64, limit: u64) -> (r: Result<ChunkSplit, PromptizeError>)
    ensures
        r is Err <==> total == 0 || limit == 0,
        r matches Err(e) ==> e is InvalidInput,
        r matches Ok(split) ==> ({
            &&& split.num_chunks == spec_num_chunks(total as int, limit as int)
            &&& split.chunk_size_tokens == spec_chunk_size(total as int, limit as int)
            &&& 1 <= split.num_chunks <= total
            &&& 1 <= split.chunk_size_tokens <= limit
            &&& split.chunk_size_tokens <= total
        }),
{
    if total == 0 || limit == 0 {
        return Err(PromptizeError::InvalidInput);
    }
    proof {
        lemma_even_split_respects_limit(total as int, limit as int);
    }
    let mut num_chunks: u64 = (total - 1) / limit + 1;
    let mut chunk_size: u64 = total / num_chunks;
    while chunk_size > limit
        invariant
            1 <= total,
            1 <= limit,
            num_chunks == spec_num_chunks(total as int, limit as int),
            chunk_size == spec_chunk_size(total as int, limit as int),
            chunk_size <= limit,
        decreases total - num_chunks,
    {
        // The even split over the ceiling of total / limit already respects
        // the limit, so this retry is never reached.
        num_chunks = num_chunks + 1;
        chunk_size = total / num_chunks;
    }
    Ok(ChunkSplit { num_chunks, chunk_size_tokens: chunk_size })
}

} // verus!
