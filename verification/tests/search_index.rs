use tendril::search::{
    count_tokens, filter_entries, index_document, merge_entries, merge_index, stale_terms,
    title_match_level, tokenize_query, upsert_score, variations_of_word,
};

fn s(v: &[&str]) -> Vec<String> {
    v.iter().map(|x| x.to_string()).collect()
}

fn scored(v: &[(&str, u32)]) -> Vec<(String, u32)> {
    v.iter().map(|(t, n)| (t.to_string(), *n)).collect()
}

#[test]
fn documents_are_counted_by_term() {
    let (counts, total) = count_tokens("Rust tests\nrust, and Verus.\n\ntests");
    assert_eq!(total, 5);
    assert_eq!(
        counts,
        vec![("rust".to_string(), 2), ("tests".to_string(), 2), ("verus".to_string(), 1)]
    );
    let sum: usize = counts.iter().map(|c| c.1).sum();
    assert_eq!(sum, total);
    assert_eq!(count_tokens(""), (vec![], 0));
}

#[test]
fn query_terms_are_tokens() {
    assert_eq!(tokenize_query("The Cat's hat"), s(&["cat", "s", "hat"]));
}

#[test]
fn words_are_looked_up_in_many_forms() {
    let v = variations_of_word("running", "run");
    assert_eq!(v.len(), 19);
    assert_eq!(v[0], "rune");
    assert_eq!(v[8], "runing");
    assert_eq!(v[17], "running");
    assert_eq!(v[18], "run");
}

#[test]
fn scores_are_set_per_document() {
    let mut tokens = scored(&[("a", 1), ("b", 2)]);
    upsert_score(&mut tokens, "b", 7);
    assert_eq!(tokens, scored(&[("a", 1), ("b", 7)]));
    upsert_score(&mut tokens, "c", 3);
    assert_eq!(tokens, scored(&[("a", 1), ("b", 7), ("c", 3)]));
}

#[test]
fn entries_are_filtered_by_document() {
    let tokens = scored(&[("a", 1), ("b", 2), ("a", 3)]);
    assert_eq!(filter_entries(&tokens, "a", false), scored(&[("b", 2)]));
    assert_eq!(filter_entries(&tokens, "a", true), scored(&[("a", 1), ("a", 3)]));
}

#[test]
fn search_results_count_appearances() {
    let mut apps: Vec<(String, usize)> = Vec::new();
    let mut results: Vec<(String, u32)> = Vec::new();
    merge_entries(&mut apps, &mut results, &scored(&[("a", 5), ("b", 1)]));
    merge_entries(&mut apps, &mut results, &scored(&[("b", 9)]));
    assert_eq!(apps, vec![("a".to_string(), 1), ("b".to_string(), 2)]);
    assert_eq!(results, scored(&[("a", 5), ("b", 1)]));
}

#[test]
fn titles_matching_the_query_rank_higher() {
    assert_eq!(title_match_level("Rust Notes", "rust notes"), 2);
    assert_eq!(title_match_level("Rust Notes", "RUST"), 1);
    assert_eq!(title_match_level("Rust Notes", "go"), 0);
}

#[test]
fn removed_terms_are_found() {
    assert_eq!(stale_terms(&s(&["a", "b", "c"]), &s(&["b"])), s(&["a", "c"]));
}

#[test]
fn documents_are_indexed() {
    let mut tokens: Vec<(String, Vec<(String, u32)>)> = Vec::new();
    let mut files: Vec<(String, Vec<String>)> = Vec::new();
    index_document(&mut tokens, &mut files, "n1.txt", "n1", &scored(&[("x", 1), ("y", 2)]));
    index_document(&mut tokens, &mut files, "n2.txt", "n2", &scored(&[("x", 3)]));
    assert_eq!(
        tokens,
        vec![
            ("x".to_string(), scored(&[("n1", 1), ("n2", 3)])),
            ("y".to_string(), scored(&[("n1", 2)])),
        ]
    );
    assert_eq!(
        files,
        vec![("n1.txt".to_string(), s(&["x", "y"])), ("n2.txt".to_string(), s(&["x"]))]
    );
    let other = vec![("y".to_string(), scored(&[("a", 4)])), ("z".to_string(), scored(&[("a", 5)]))];
    merge_index(&mut tokens, &other);
    assert_eq!(tokens[1], ("y".to_string(), scored(&[("n1", 2), ("a", 4)])));
    assert_eq!(tokens[2], ("z".to_string(), scored(&[("a", 5)])));
}
