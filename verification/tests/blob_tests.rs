use chak::blob::{restore_previous_version, BlobObject, CompareOrderStructure};
use chak::hashing::{HashPointer, HashPointerTraits};

fn h(s: &str) -> String {
    HashPointer::from_string(s).get_one_hash()
}

fn lines(v: &[&str]) -> Vec<String> {
    v.iter().map(|s| s.to_string()).collect()
}

fn hash_lines(b: &BlobObject) -> Vec<String> {
    b.hash_lines.iter().cloned().collect()
}

#[test]
fn blob_of_lines_keeps_first_appearance_order() {
    let b = BlobObject::from_string_lines(lines(&["b", "a", "b", "c"]));
    assert_eq!(hash_lines(&b), vec![h("b"), h("a"), h("c")]);
    assert_eq!(b.hash_to_content.len(), 3);
    assert_eq!(b.hash_to_content.get(&h("a")).unwrap(), "a");
    // contents are sorted by hash
    let keys: Vec<String> = b.hash_to_content.keys().cloned().collect();
    let mut sorted = keys.clone();
    sorted.sort();
    assert_eq!(keys, sorted);
}

#[test]
fn blob_as_text_joins_distinct_lines() {
    let b = BlobObject::from_string_lines(lines(&["line one", "line two", "line one", "line three"]));
    assert_eq!(b.to_string_content(), "line one\nline two\nline three");
    let empty = BlobObject::from_string_lines(vec![]);
    assert_eq!(empty.to_string_content(), "");
}

#[test]
fn diff_keeps_previous_order_and_only_lines_the_new_content_lacks() {
    let prev = BlobObject::from_string_lines(lines(&["a", "b", "c"]));
    let new = BlobObject::from_string_lines(lines(&["b", "x"]));
    let diff = BlobObject::compare_hashed_content_biased_previous(&CompareOrderStructure {
        previous_content: prev,
        new_content: new,
    });
    assert_eq!(hash_lines(&diff), vec![h("a"), h("b"), h("c")]);
    assert_eq!(diff.hash_to_content.len(), 2);
    assert_eq!(diff.hash_to_content.get(&h("a")).unwrap(), "a");
    assert_eq!(diff.hash_to_content.get(&h("c")).unwrap(), "c");
    assert!(diff.hash_to_content.get(&h("b")).is_none());
    // a diff as text: lines the new content has come out empty
    assert_eq!(diff.to_string_content(), "a\n\nc");
}

#[test]
fn restore_gives_back_previous_lines() {
    let prev_lines = lines(&["a", "b", "a", "c"]);
    let new_lines = lines(&["c", "b", "d"]);
    let diff = BlobObject::get_diff(prev_lines, new_lines.clone());
    let new = BlobObject::from_string_lines(new_lines);
    assert_eq!(restore_previous_version(&new, &diff), lines(&["a", "b", "c"]));
}

#[test]
fn restore_skips_hashes_recorded_nowhere() {
    let prev = BlobObject::from_string_lines(lines(&["a", "b"]));
    let unrelated = BlobObject::from_string_lines(lines(&["z"]));
    assert_eq!(restore_previous_version(&unrelated, &prev), lines(&["a", "b"]));
    let diff = BlobObject::get_diff(lines(&["a", "b"]), lines(&["b"]));
    assert_eq!(restore_previous_version(&unrelated, &diff), lines(&["a"]));
}

#[test]
fn test_diff_algo() {
    let prev_file_content = BlobObject::from_string_lines(lines(&["fn main() {", "    old();", "}"]));
    let new_file_content = BlobObject::from_string_lines(lines(&["fn main() {", "    new();", "}"]));
    let diff_biased_prev = BlobObject::compare_hashed_content_biased_previous(&CompareOrderStructure {
        previous_content: prev_file_content,
        new_content: new_file_content,
    });
    assert_eq!(
        hash_lines(&diff_biased_prev),
        vec![h("fn main() {"), h("    old();"), h("}")]
    );
    assert_eq!(diff_biased_prev.hash_to_content.len(), 1);
    assert_eq!(diff_biased_prev.hash_to_content.get(&h("    old();")).unwrap(), "    old();");
}

#[test]
fn restore_previous_version_test() {
    let new_file_content = BlobObject::from_string_lines(lines(&["fn main() {", "    new();", "}"]));
    let diff_file_content = BlobObject::get_diff(
        lines(&["fn main() {", "    old();", "}"]),
        lines(&["fn main() {", "    new();", "}"]),
    );
    let restored = restore_previous_version(&new_file_content, &diff_file_content);
    assert_eq!(restored, lines(&["fn main() {", "    old();", "}"]));
}
