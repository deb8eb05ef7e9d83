use couch_gag_metrics::validate::{
    get_key_value_pair_from_env, has_valid_ulysses_key, is_valid_path,
};

#[test]
fn path_whitelist_is_exact() {
    assert!(is_valid_path(&"/".to_string()));
    assert!(is_valid_path(&"/ping".to_string()));
    assert!(is_valid_path(&"/metric".to_string()));
    assert!(!is_valid_path(&"/metrics".to_string()));
    assert!(!is_valid_path(&"/ping/".to_string()));
    assert!(!is_valid_path(&"".to_string()));
    assert!(!is_valid_path(&"/metric?x=1".to_string()));
}

#[test]
fn env_lookup_finds_key_value_pair() {
    let contents = "FOO=1\nULYSSES_HASHED_KEY=abc\nBAR=2";
    assert_eq!(
        get_key_value_pair_from_env(contents, "ULYSSES_HASHED_KEY"),
        "abc"
    );
}

#[test]
fn env_lookup_last_matching_line_wins() {
    let contents = "ULYSSES_HASHED_KEY=old\nULYSSES_HASHED_KEY=new";
    assert_eq!(
        get_key_value_pair_from_env(contents, "ULYSSES_HASHED_KEY"),
        "new"
    );
}

#[test]
fn env_lookup_missing_key_degrades_to_empty() {
    assert_eq!(get_key_value_pair_from_env("FOO=1\nBAR=2", "ULYSSES_HASHED_KEY"), "");
    assert_eq!(get_key_value_pair_from_env("", "ULYSSES_HASHED_KEY"), "");
}

#[test]
fn env_lookup_line_without_equals_degrades_to_empty() {
    assert_eq!(
        get_key_value_pair_from_env("ULYSSES_HASHED_KEY abc", "ULYSSES_HASHED_KEY"),
        ""
    );
}

#[test]
fn env_lookup_value_keeps_everything_after_first_equals() {
    assert_eq!(
        get_key_value_pair_from_env("ULYSSES_HASHED_KEY=a=b", "ULYSSES_HASHED_KEY"),
        "a=b"
    );
}

fn headers(pairs: &[(&str, &str)]) -> Vec<(String, String)> {
    pairs
        .iter()
        .map(|p| (p.0.to_string(), p.1.to_string()))
        .collect()
}

#[test]
fn matching_secret_validates() {
    let hs = headers(&[("Host", "x"), ("x-ulysses-key", "s3cr3t")]);
    assert!(has_valid_ulysses_key("s3cr3t", &hs));
}

#[test]
fn mismatched_or_missing_secret_fails() {
    let hs = headers(&[("x-ulysses-key", "wrong")]);
    assert!(!has_valid_ulysses_key("s3cr3t", &hs));
    let hs = headers(&[("Host", "x")]);
    assert!(!has_valid_ulysses_key("s3cr3t", &hs));
    let hs = headers(&[]);
    assert!(!has_valid_ulysses_key("", &hs));
}

#[test]
fn header_name_matches_by_substring_and_last_wins() {
    let hs = headers(&[("pre-x-ulysses-key-post", "s3cr3t")]);
    assert!(has_valid_ulysses_key("s3cr3t", &hs));
    let hs = headers(&[("x-ulysses-key", "right"), ("x-ulysses-key", "wrong")]);
    assert!(!has_valid_ulysses_key("right", &hs));
    assert!(has_valid_ulysses_key("wrong", &hs));
}

#[test]
fn header_name_match_is_case_sensitive() {
    let hs = headers(&[("X-Ulysses-Key", "s3cr3t")]);
    assert!(!has_valid_ulysses_key("s3cr3t", &hs));
}
