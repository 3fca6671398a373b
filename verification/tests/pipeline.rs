use promptize::builder::FileContent;
use promptize::errors::PromptizeError;
use promptize::record::{PromptField, PromptRecord};
use promptize::tokenizer::count_tokens;

fn sample_record(content: String) -> PromptRecord {
    PromptRecord {
        system_prompt: "You are a computer system that responds only in JSON.".to_string(),
        user_prompt: "Summarize the file contents.".to_string(),
        context_fields: vec![PromptField {
            name: "filename".to_string(),
            value: "huge_file.rs".to_string(),
        }],
        splittable: PromptField { name: "file_content".to_string(), value: content },
    }
}

#[test]
fn tokenizer_is_idempotent() {
    let a = count_tokens("gpt-4", "hello world, how are you today?").unwrap();
    let b = count_tokens("gpt-4", "hello world, how are you today?").unwrap();
    assert_eq!(a, b);
}

#[test]
fn tokenizer_counts_grow_with_text() {
    let short = count_tokens("gpt-4", "hello world").unwrap();
    assert!(short >= 1);
    let long = count_tokens("gpt-4", &"hello world ".repeat(100)).unwrap();
    assert!(long > short);
}

#[test]
fn unknown_model_is_rejected() {
    let err = count_tokens("model-nobody-knows", "hi").unwrap_err();
    assert_eq!(err, PromptizeError::TokenizerUnavailable);
}

#[test]
fn fitting_prompt_yields_single_unmodified_pair() {
    let rec = sample_record("short contents".to_string());
    let pairs = rec.build_prompt("gpt-4", 8192, 1000).unwrap();
    assert_eq!(pairs.len(), 1);
    assert_eq!(pairs[0].instructional, rec.system_prompt);
    assert_eq!(pairs[0].payload, rec.splittable.value);
}

#[test]
fn oversized_prompt_splits_and_reassembles() {
    let content = "The quick brown fox jumps over the lazy dog. ".repeat(300);
    let rec = sample_record(content);
    let serialized = rec.serialize();
    let pairs = rec.build_prompt("gpt-4", 500, 100).unwrap();
    assert!(pairs.len() > 1);
    let payloads: Vec<&str> = pairs.iter().map(|p| p.payload.as_str()).collect();
    let joined: String = payloads.concat();
    assert_eq!(joined, serialized);
    for p in &pairs {
        assert_eq!(p.instructional, rec.system_prompt);
    }
}

#[test]
fn split_payloads_keep_document_order() {
    let content = "abcdefghij".repeat(1500);
    let rec = sample_record(content);
    let serialized = rec.serialize();
    let pairs = rec.build_prompt("gpt-4", 500, 100).unwrap();
    assert!(pairs.len() >= 3);
    let mut offset: usize = 0;
    for p in &pairs {
        assert_eq!(serialized[offset..offset + p.payload.len()], p.payload[..]);
        offset += p.payload.len();
    }
    assert_eq!(offset, serialized.len());
}

#[test]
fn exhausted_budget_is_reported() {
    // The instructional fields alone dwarf the overall limit, so the
    // remaining per-chunk budget cannot honor the per-chunk limit.
    let mut rec = sample_record("a modest amount of content".to_string());
    rec.system_prompt = "rule ".repeat(3000);
    let err = rec.build_prompt("gpt-4", 100, 50).unwrap_err();
    assert_eq!(err, PromptizeError::BudgetExceeded);
}

#[test]
fn builder_requires_every_field() {
    let builder = FileContent::builder()
        .system_prompt("a".to_string())
        .user_prompt("b".to_string())
        .filename("f.txt".to_string());
    let err = builder.build_prompt("gpt-4", 8192, 1000).unwrap_err();
    assert_eq!(err, PromptizeError::MissingField);
}

#[test]
fn builder_assembles_full_record() {
    let pairs = FileContent::builder()
        .system_prompt("You are a careful assistant.".to_string())
        .user_prompt("Answer briefly.".to_string())
        .filename("notes.txt".to_string())
        .file_content("A few lines of text.".to_string())
        .build_prompt("gpt-4", 8192, 1000)
        .unwrap();
    assert_eq!(pairs.len(), 1);
    assert_eq!(pairs[0].instructional, "You are a careful assistant.");
    assert_eq!(pairs[0].payload, "A few lines of text.");
}

#[test]
fn builder_build_returns_the_set_fields() {
    let content = FileContent::builder()
        .system_prompt("s".to_string())
        .user_prompt("u".to_string())
        .filename("f".to_string())
        .file_content("c".to_string())
        .build()
        .unwrap();
    assert_eq!(content.system_prompt, "s");
    assert_eq!(content.user_prompt, "u");
    assert_eq!(content.filename, "f");
    assert_eq!(content.file_content, "c");
}
