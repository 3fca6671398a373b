use promptize::record::{PromptField, PromptRecord};
use promptize::serialize::json_string;

fn reference_json_string(s: &str) -> String {
    serde_json::to_string(s).unwrap()
}

#[test]
fn string_escaping_matches_reference_serializer() {
    let cases: [&str; 10] = [
        "",
        "plain text",
        "a \"quoted\" word",
        "back\\slash",
        "line\nbreak\ttab\rreturn",
        "\u{0008}\u{000c}",
        "\u{0001}\u{001f}",
        "\u{007f} stays",
        "héllo wörld",
        "mixed \"x\\y\"\n\u{0002}z",
    ];
    for s in cases {
        assert_eq!(json_string(s), reference_json_string(s));
    }
}

#[test]
fn serialized_record_matches_reference_member_by_member() {
    let rec = PromptRecord {
        system_prompt: "You are a careful \"assistant\".".to_string(),
        user_prompt: "Summarize\nthe file.".to_string(),
        context_fields: vec![PromptField {
            name: "filename".to_string(),
            value: "notes\\2024.txt".to_string(),
        }],
        splittable: PromptField {
            name: "file_content".to_string(),
            value: "line one\nline two\t\u{0003}".to_string(),
        },
    };
    let expected = format!(
        "{{{}:{},{}:{},{}:{},{}:{}}}",
        reference_json_string("system_prompt"),
        reference_json_string(&rec.system_prompt),
        reference_json_string("user_prompt"),
        reference_json_string(&rec.user_prompt),
        reference_json_string("filename"),
        reference_json_string(&rec.context_fields[0].value),
        reference_json_string("file_content"),
        reference_json_string(&rec.splittable.value),
    );
    assert_eq!(rec.serialize(), expected);
}

#[test]
fn serialized_record_with_no_context_fields() {
    let rec = PromptRecord {
        system_prompt: "s".to_string(),
        user_prompt: "u".to_string(),
        context_fields: vec![],
        splittable: PromptField { name: "body".to_string(), value: "v".to_string() },
    };
    assert_eq!(
        rec.serialize(),
        "{\"system_prompt\":\"s\",\"user_prompt\":\"u\",\"body\":\"v\"}"
    );
}
