//! The error kinds that prompt assembly can report.

use vstd::prelude::*;

verus! {

/// Every failure of prompt assembly is one of these kinds; no partial chunk
/// output is ever produced alongside an error.
#[derive(Clone, Copy, Debug, PartialEq, Eq, Structural)]
pub enum PromptizeError {
    /// A required field of the record was never set on the builder.
    MissingField,
    /// The model identifier has no known tokenizer.
    TokenizerUnavailable,
    /// The fixed overhead leaves less remaining budget than the per-chunk
    /// limit, so no acceptable chunking exists.
    BudgetExceeded,
    /// A non-positive token count or limit reached the chunk size optimizer.
    InvalidInput,
}

} // verus!
