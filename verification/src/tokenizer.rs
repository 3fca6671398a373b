//! The tokenizer adapter: the token count of a text under a named model's
//! byte-pair-encoding tokenizer. Counts from different model identifiers are
//! never interchangeable, so the model accompanies every count.

use crate::errors::PromptizeError;
use vstd::prelude::*;

verus! {

/// Whether the model identifier resolves to a known tokenizer. The lookup is
/// a fixed table of model names and prefixes, so it depends on the identifier
/// alone.
pub uninterp spec fn bpe_available(model: Seq<char>) -> bool;

/// The number of tokens the named model's tokenizer produces for the text.
/// The encoding is a pure function of the model's vocabulary and the text, so
/// the count depends on the pair alone.
pub uninterp spec fn token_count(model: Seq<char>, text: Seq<char>) -> nat;

/// Relies on tiktoken_rs::bpe_for_model, which resolves the model identifier
/// through fixed lookup tables and fails exactly when no entry matches, and
/// on tiktoken_rs::CoreBPE::encode_with_special_tokens, whose token sequence
/// is a deterministic function of the model's vocabulary and the text.
#[verifier::external_body]
fn count_tokens_raw(model: &str, text: &str) -> (r: Option<usize>)
    ensures
        r is Some <==> bpe_available(model@),
        r matches Some(n) ==> n as nat == token_count(model@, text@),
{
    match tiktoken_rs::bpe_for_model(model) {
        Ok(bpe) => Some(bpe.encode_with_special_tokens(text).len()),
        Err(_) => None,
    }
}

/// Counts the tokens of `text` under the tokenizer of `model`; a model with
/// no known tokenizer is rejected.
pub fn count_tokens(model: &str, text: &str) -> (r: Result<u64, PromptizeError>)
    ensures
        r is Ok <==> bpe_available(model@),
        r matches Ok(n) ==> n as nat == token_count(model@, text@),
        r matches Err(e) ==> e is TokenizerUnavailable,
{
    match count_tokens_raw(model, text) {
        Some(n) => Ok(n as u64),
        None => Err(PromptizeError::TokenizerUnavailable),
    }
}

/// Tokenizer calls are idempotent: any two counts obtained for the same model
/// identifier and the same text are equal, because the count is a function of
/// that pair alone.
pub proof fn lemma_token_count_deterministic(model: Seq<char>, text: Seq<char>, c1: nat, c2: nat)
    requires
        c1 == token_count(model, text),
        c2 == token_count(model, text),
    ensures
        c1 == c2,
{
}

} // verus!
