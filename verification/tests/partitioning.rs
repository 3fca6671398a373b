use promptize::partition::{chunk_string, compute_chunk_size_chars};

#[test]
fn chunks_reassemble_exactly() {
    let text = "abcdefghij";
    let chunks = chunk_string(text, 4);
    assert_eq!(chunks.len(), 3);
    assert_eq!(chunks[0], "abcd");
    assert_eq!(chunks[1], "efgh");
    assert_eq!(chunks[2], "ij");
    let joined: String = chunks.concat();
    assert_eq!(joined, text);
}

#[test]
fn chunk_order_follows_text_order() {
    let text = "aaabbbccc";
    let chunks = chunk_string(text, 3);
    assert_eq!(chunks, vec!["aaa".to_string(), "bbb".to_string(), "ccc".to_string()]);
}

#[test]
fn exact_division_has_no_short_tail() {
    let chunks = chunk_string("abcdef", 2);
    assert_eq!(chunks, vec!["ab".to_string(), "cd".to_string(), "ef".to_string()]);
}

#[test]
fn empty_text_yields_no_chunks() {
    let chunks = chunk_string("", 5);
    assert!(chunks.is_empty());
}

#[test]
fn oversized_chunk_holds_whole_text() {
    let chunks = chunk_string("abc", 100);
    assert_eq!(chunks, vec!["abc".to_string()]);
}

#[test]
fn multibyte_characters_stay_whole() {
    let chunks = chunk_string("ééééé", 2);
    assert_eq!(chunks, vec!["éé".to_string(), "éé".to_string(), "é".to_string()]);
    let joined: String = chunks.concat();
    assert_eq!(joined, "ééééé");
}

#[test]
fn chars_target_is_ceiling_of_scaled_count() {
    // ceil(2500 * 100 / 9000) = ceil(27.78) = 28 characters.
    assert_eq!(compute_chunk_size_chars(2500, 9000, 100), 28);
    // An exact ratio needs no rounding: 50 / 100 of 100 characters is 50.
    assert_eq!(compute_chunk_size_chars(50, 100, 100), 50);
    // ceil(1 * 10 / 3) = 4 characters.
    assert_eq!(compute_chunk_size_chars(1, 3, 10), 4);
    // A full-size chunk covers the whole text.
    assert_eq!(compute_chunk_size_chars(7, 7, 123), 123);
}
