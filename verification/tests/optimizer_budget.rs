use promptize::budget::{compute_budget, BudgetDecision};
use promptize::errors::PromptizeError;
use promptize::optimizer::get_chunk_size_tokens;

#[test]
fn optimizer_converges_within_limit() {
    // 10000 tokens under a 3000-token budget: 4 chunks of 2500 tokens each.
    let split = get_chunk_size_tokens(10000, 3000).unwrap();
    assert_eq!(split.num_chunks, 4);
    assert_eq!(split.chunk_size_tokens, 2500);
    assert!(split.chunk_size_tokens <= 3000);
}

#[test]
fn optimizer_single_chunk_when_under_limit() {
    let split = get_chunk_size_tokens(100, 1000).unwrap();
    assert_eq!(split.num_chunks, 1);
    assert_eq!(split.chunk_size_tokens, 100);
}

#[test]
fn optimizer_uneven_division_truncates() {
    // ceil(10 / 3) = 4 chunks; 10 / 4 truncates to 2 tokens per chunk.
    let split = get_chunk_size_tokens(10, 3).unwrap();
    assert_eq!(split.num_chunks, 4);
    assert_eq!(split.chunk_size_tokens, 2);
}

#[test]
fn optimizer_rejects_zero_total() {
    let err = get_chunk_size_tokens(0, 10).unwrap_err();
    assert_eq!(err, PromptizeError::InvalidInput);
}

#[test]
fn optimizer_rejects_zero_limit() {
    let err = get_chunk_size_tokens(10, 0).unwrap_err();
    assert_eq!(err, PromptizeError::InvalidInput);
}

#[test]
fn chunk_count_never_rises_with_larger_limit() {
    let limits: [u64; 8] = [1, 2, 3, 5, 10, 100, 1000, 10000];
    let mut last = u64::MAX;
    for limit in limits {
        let split = get_chunk_size_tokens(10000, limit).unwrap();
        assert!(split.num_chunks <= last);
        last = split.num_chunks;
    }
}

#[test]
fn budget_rejects_when_overhead_leaves_too_little() {
    // Fixed overhead 7500 tokens (10000 total, 2500 splittable) against an
    // overall limit of 8192 leaves 692, under the per-chunk limit of 1000.
    let decision = compute_budget(10000, 2500, 8192, 1000);
    assert!(matches!(decision, BudgetDecision::Exceeded));
}

#[test]
fn budget_short_circuits_within_limit() {
    let decision = compute_budget(500, 200, 8192, 1000);
    assert!(matches!(decision, BudgetDecision::NoSplit));
}

#[test]
fn budget_computes_remaining_for_split() {
    // Fixed overhead 1000 tokens: 8192 - 1000 = 7192 remain per chunk.
    let decision = compute_budget(10000, 9000, 8192, 1000);
    match decision {
        BudgetDecision::Split { remaining } => assert_eq!(remaining, 7192),
        other => panic!("expected a split, got {:?}", other),
    }
}
