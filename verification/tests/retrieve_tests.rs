use chizu::retrieve::tokenize_query;
use chizu::rerank::{W_EXPORTED, W_KEYWORD, W_KIND_PREF, W_NAME_MATCH, W_PATH_MATCH, W_TASK_ROUTE, W_VECTOR};

const EPS: f64 = 1e-9;

#[test]
fn tokenize_removes_stopwords() {
    let tokens = tokenize_query("does the engine work for them");
    assert!(!tokens.contains(&"does".to_string()), "does is a stopword");
    assert!(!tokens.contains(&"the".to_string()), "the is a stopword");
    assert!(!tokens.contains(&"for".to_string()), "for is a stopword");
    assert!(!tokens.contains(&"them".to_string()), "them is a stopword");
    assert!(tokens.contains(&"engine".to_string()));
    assert!(tokens.contains(&"work".to_string()));
}

#[test]
fn tokenize_lowercases() {
    let tokens = tokenize_query("Engine Parser");
    assert!(tokens.contains(&"engine".to_string()));
    assert!(tokens.contains(&"parser".to_string()));
}

#[test]
fn tokenize_removes_short_tokens() {
    let tokens = tokenize_query("a I x go");
    assert!(!tokens.contains(&"a".to_string()));
    assert!(!tokens.contains(&"x".to_string()));
    assert!(tokens.contains(&"go".to_string()));
}

#[test]
fn tokenize_splits_on_punctuation() {
    let tokens = tokenize_query("engine.parse()");
    assert!(tokens.contains(&"engine".to_string()));
    assert!(tokens.contains(&"parse".to_string()));
}

#[test]
fn tokenize_preserves_underscores() {
    let tokens = tokenize_query("task_route store_backend");
    assert!(tokens.contains(&"task_route".to_string()));
    assert!(tokens.contains(&"store_backend".to_string()));
}

#[test]
fn tokenize_empty_input() {
    assert!(tokenize_query("").is_empty());
}

#[test]
fn tokenize_all_stopwords() {
    let tokens = tokenize_query("the is a an");
    assert!(tokens.is_empty());
}

#[test]
fn tokenize_keeps_order_and_duplicates() {
    assert_eq!(
        tokenize_query("Parser-parser engine"),
        vec!["parser".to_string(), "parser".to_string(), "engine".to_string()]
    );
}

#[test]
fn weight_constants_sum_to_one() {
    let sum = (W_TASK_ROUTE + W_KEYWORD + W_NAME_MATCH + W_VECTOR + W_KIND_PREF + W_EXPORTED + W_PATH_MATCH) as f64
        / 100.0;
    assert!((sum - 1.0).abs() < EPS, "weights should sum to 1.0, got {sum}");
}
