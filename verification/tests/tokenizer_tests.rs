use tengu::tokenizer::{intersection, tokenize, Token};

#[test]
fn should_tokenize_sql_query() {
    let sql = "SELECT * FROM users WHERE id = 1".to_string();
    let tokens = tokenize(sql);
    assert_eq!(tokens.len(), 8);
    assert!(tokens.contains(&Token::Token("SELECT".to_string())));
    assert!(tokens.contains(&Token::Ignored("*".to_string())));
    assert!(tokens.contains(&Token::Token("FROM".to_string())));
    assert!(tokens.contains(&Token::Token("users".to_string())));
    assert!(tokens.contains(&Token::Token("WHERE".to_string())));
    assert!(tokens.contains(&Token::Token("id".to_string())));
    assert!(tokens.contains(&Token::Ignored("=".to_string())));
    assert!(tokens.contains(&Token::Number("1".to_string())));
}

#[test]
fn tokenize_keeps_case_and_splits_punctuation() {
    let tokens = tokenize("SELECT * FROM dbo.tbl_person;".to_string());
    assert_eq!(tokens.len(), 7);
    assert!(tokens.contains(&Token::Token("SELECT".to_string())));
    assert!(tokens.contains(&Token::Token("FROM".to_string())));
    assert!(tokens.contains(&Token::Token("dbo".to_string())));
    assert!(tokens.contains(&Token::Token("tbl_person".to_string())));
    assert!(tokens.contains(&Token::Ignored("*".to_string())));
    assert!(tokens.contains(&Token::Ignored(".".to_string())));
    assert!(tokens.contains(&Token::Ignored(";".to_string())));
    assert!(!tokens.contains(&Token::Token("select".to_string())));
}

#[test]
fn tokenize_is_deterministic_and_total() {
    let texts = [
        "",
        "   \t\r\n",
        "a1_b2 c3",
        "12 34 12",
        "x x x",
        "émoji words étoile",
    ];
    for t in texts {
        let first = tokenize(t.to_string());
        let second = tokenize(t.to_string());
        assert_eq!(first, second);
    }
}

#[test]
fn tokenize_collapses_duplicates() {
    let tokens = tokenize("users users users".to_string());
    assert_eq!(tokens.len(), 1);
    assert!(tokens.contains(&Token::Token("users".to_string())));
}

#[test]
fn tokenize_empty_text_gives_no_tokens() {
    assert_eq!(tokenize(String::new()).len(), 0);
}

fn as_set(v: Vec<String>) -> std::collections::BTreeSet<String> {
    v.into_iter().collect()
}

#[test]
fn intersection_exact_matches_only() {
    let known = vec!["users".to_string(), "orders".to_string(), "people".to_string()];
    let present = vec!["users".to_string(), "use".to_string(), "peoples".to_string()];
    let common = intersection(known, present);
    assert_eq!(common, vec!["users".to_string()]);
}

#[test]
fn intersection_is_commutative() {
    let a = vec!["a".to_string(), "b".to_string(), "c".to_string()];
    let b = vec!["b".to_string(), "c".to_string(), "d".to_string()];
    let ab = as_set(intersection(a.clone(), b.clone()));
    let ba = as_set(intersection(b, a));
    assert_eq!(ab, ba);
}

#[test]
fn intersection_is_idempotent() {
    let s = vec!["users".to_string(), "orders".to_string()];
    let same = as_set(intersection(s.clone(), s.clone()));
    assert_eq!(same, as_set(s));
}

#[test]
fn intersection_with_empty_is_empty() {
    let s = vec!["users".to_string(), "orders".to_string()];
    assert!(intersection(s.clone(), Vec::new()).is_empty());
    assert!(intersection(Vec::new(), s).is_empty());
}

#[test]
fn intersection_is_case_sensitive() {
    let a = vec!["Users".to_string()];
    let b = vec!["users".to_string()];
    assert!(intersection(a, b).is_empty());
}
