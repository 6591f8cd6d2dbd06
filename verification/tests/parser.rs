use breeze_core::link::{extract_session_id, find_deep_link_arg};

#[test]
fn extracts_simple_session() {
    assert_eq!(
        extract_session_id("breeze://connect?session=abc"),
        Some("abc".to_string())
    );
}

#[test]
fn extracts_session_among_other_pairs() {
    assert_eq!(
        extract_session_id("breeze://connect?a=1&session=abc&b=2"),
        Some("abc".to_string())
    );
}

#[test]
fn missing_query_string_is_none() {
    assert_eq!(extract_session_id("breeze://connect"), None);
}

#[test]
fn missing_session_parameter_is_none() {
    assert_eq!(extract_session_id("breeze://connect?foo=1&bar=2"), None);
}

#[test]
fn empty_session_value_is_none() {
    assert_eq!(extract_session_id("breeze://connect?session="), None);
}

#[test]
fn first_session_pair_decides() {
    assert_eq!(
        extract_session_id("breeze://c?session=first&session=second"),
        Some("first".to_string())
    );
    assert_eq!(extract_session_id("breeze://c?session=&session=second"), None);
}

#[test]
fn key_must_match_exactly() {
    assert_eq!(extract_session_id("breeze://c?xsession=abc"), None);
    assert_eq!(extract_session_id("breeze://c?session-id=abc"), None);
}

#[test]
fn value_may_contain_equals() {
    assert_eq!(
        extract_session_id("breeze://c?session=a=b"),
        Some("a=b".to_string())
    );
}

#[test]
fn empty_string_is_none() {
    assert_eq!(extract_session_id(""), None);
    assert_eq!(extract_session_id("?"), None);
}

#[test]
fn finds_scheme_argument() {
    let args = vec![
        "viewer".to_string(),
        "--flag".to_string(),
        "breeze://x?session=a".to_string(),
    ];
    assert_eq!(
        find_deep_link_arg(&args),
        Some("breeze://x?session=a".to_string())
    );
}

#[test]
fn no_scheme_argument() {
    let args = vec!["viewer".to_string(), "--flag".to_string()];
    assert_eq!(find_deep_link_arg(&args), None);
    assert_eq!(find_deep_link_arg(&Vec::new()), None);
}

#[test]
fn first_scheme_argument_wins() {
    let args = vec![
        "breeze:one".to_string(),
        "breeze:two".to_string(),
    ];
    assert_eq!(find_deep_link_arg(&args), Some("breeze:one".to_string()));
}
