//! Token-budget accounting and chunking for large-language-model prompts.
//!
//! A prompt is a record of named string fields, one of which is designated
//! splittable. When the whole serialized prompt fits under the caller's token
//! budget, one message pair is produced. When it does not, the serialized
//! prompt is partitioned into character slices sized so that each chunk's
//! token count stays under a per-chunk budget, and one message pair is
//! produced per slice, each repeating the fixed instructional content.

pub mod budget;
pub mod builder;
pub mod errors;
pub mod optimizer;
pub mod partition;
pub mod record;
pub mod serialize;
pub mod tokenizer;
