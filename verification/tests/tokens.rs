use fact_store::tokens::{compare_text, token_frequencies, unique_tokens};

fn strings(v: &[&str]) -> Vec<String> {
    v.iter().map(|s| s.to_string()).collect()
}

#[test]
fn unique_tokens_sorts_and_dedups() {
    assert_eq!(
        unique_tokens(strings(&["search", "common", "search", "a", "common"])),
        strings(&["a", "common", "search"])
    );
    assert_eq!(unique_tokens(Vec::new()), Vec::<String>::new());
    assert_eq!(unique_tokens(strings(&["b", "ab", "a"])), strings(&["a", "ab", "b"]));
    let mut expected = strings(&["zeta", "été", "Zeta", "alpha"]);
    expected.sort();
    assert_eq!(unique_tokens(strings(&["zeta", "été", "Zeta", "alpha", "zeta"])), expected);
}

#[test]
fn token_frequencies_count_each_token() {
    let f = token_frequencies(&strings(&["b", "a", "b", "c", "b"]));
    assert_eq!(
        f,
        vec![("a".to_string(), 1), ("b".to_string(), 3), ("c".to_string(), 1)]
    );
    assert!(token_frequencies(&[]).is_empty());
}

#[test]
fn compare_text_is_string_order() {
    assert!(compare_text("a", "b") < 0);
    assert!(compare_text("b", "a") > 0);
    assert_eq!(compare_text("ab", "ab"), 0);
    assert!(compare_text("a", "ab") < 0);
    assert!(compare_text("", "a") < 0);
    assert!(compare_text("é", "z") > 0);
}
