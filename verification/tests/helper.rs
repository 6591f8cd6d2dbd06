use breeze_core::agent::{combine_pem, load_agent_config_from_str, validate_agent_config};
use breeze_core::fetch::{
    bearer_value, is_success_status, sanitize_headers, should_stream, url_allowed,
};
use breeze_core::uuid::{format_uuid, new_stream_id, uuid_v4};

fn s(x: &str) -> String {
    x.to_string()
}

#[test]
fn validate_reports_missing_api_url() {
    let r = validate_agent_config(None, Some(s("t")), Some(s("a")), None, None);
    assert_eq!(r.unwrap_err(), s("Missing 'api_url' in agent config"));
}

#[test]
fn validate_reports_missing_token() {
    let r = validate_agent_config(Some(s("u")), None, Some(s("a")), None, None);
    assert_eq!(r.unwrap_err(), s("Missing 'token' in agent config"));
}

#[test]
fn validate_reports_missing_agent_id() {
    let r = validate_agent_config(Some(s("u")), Some(s("t")), None, None, None);
    assert_eq!(r.unwrap_err(), s("Missing 'agent_id' in agent config"));
}

#[test]
fn validate_keeps_fields_and_filters_empty_pems() {
    let r = validate_agent_config(
        Some(s("https://api.example.com")),
        Some(s("tok")),
        Some(s("agent-7")),
        Some(s("")),
        Some(s("KEY")),
    )
    .unwrap();
    assert_eq!(r.api_url, s("https://api.example.com"));
    assert_eq!(r.token, s("tok"));
    assert_eq!(r.agent_id, s("agent-7"));
    assert_eq!(r.mtls_cert_pem, None);
    assert_eq!(r.mtls_key_pem, Some(s("KEY")));
    let c = r.summary();
    assert_eq!(c.api_url, s("https://api.example.com"));
    assert_eq!(c.token, s("tok"));
    assert_eq!(c.agent_id, s("agent-7"));
    assert!(!c.has_mtls);
}

#[test]
fn summary_reports_mtls_only_with_both_halves() {
    let r = validate_agent_config(
        Some(s("u")),
        Some(s("t")),
        Some(s("a")),
        Some(s("CERT")),
        Some(s("KEY")),
    )
    .unwrap();
    assert!(r.summary().has_mtls);
}

#[test]
fn combine_pem_joins_with_newline() {
    assert_eq!(combine_pem(&s("CERT"), &s("KEY")), s("CERT\nKEY"));
}

#[test]
fn url_guard_requires_api_prefix() {
    let api = s("https://api.example.com");
    assert!(url_allowed(&s("https://api.example.com/v1/agents"), &api));
    assert!(url_allowed(&api, &api));
    assert!(!url_allowed(&s("https://evil.example.net/v1"), &api));
    assert!(!url_allowed(&s("http://api.example.com/v1"), &api));
    assert!(!url_allowed(&s(""), &api));
}

#[test]
fn status_success_range() {
    assert!(!is_success_status(199));
    assert!(is_success_status(200));
    assert!(is_success_status(299));
    assert!(!is_success_status(300));
    assert!(!is_success_status(404));
}

#[test]
fn stream_only_on_requested_success() {
    assert!(should_stream(&Some(true), 200));
    assert!(!should_stream(&Some(true), 404));
    assert!(!should_stream(&Some(false), 200));
    assert!(!should_stream(&None, 200));
}

#[test]
fn authorization_header_is_dropped_case_insensitively() {
    let headers = vec![
        (s("Accept"), s("text/plain")),
        (s("Authorization"), s("Bearer stolen")),
        (s("AUTHORIZATION"), s("x")),
        (s("authorization"), s("y")),
        (s("X-Custom"), s("1")),
    ];
    let kept = sanitize_headers(&headers);
    assert_eq!(
        kept,
        vec![(s("Accept"), s("text/plain")), (s("X-Custom"), s("1"))]
    );
}

#[test]
fn similar_header_names_are_kept() {
    let headers = vec![(s("authorization-x"), s("1")), (s("x-authorization"), s("2"))];
    let kept = sanitize_headers(&headers);
    assert_eq!(kept, headers);
}

#[test]
fn bearer_header_value() {
    assert_eq!(bearer_value(&s("tok")), s("Bearer tok"));
}

#[test]
fn uuid_rendering_zero() {
    assert_eq!(format_uuid(0), s("00000000-0000-4000-8000-000000000000"));
}

#[test]
fn uuid_rendering_all_ones() {
    assert_eq!(
        format_uuid(u128::MAX),
        s("ffffffff-ffff-4fff-bfff-ffffffffffff")
    );
}

#[test]
fn uuid_rendering_mixed() {
    let val: u128 = 0x0123456789abcdef_0123456789abcdef;
    assert_eq!(format_uuid(val), s("01234567-89ab-4def-8123-456789abcdef"));
}

#[test]
fn uuid_v4_shape() {
    let u = uuid_v4();
    let b: Vec<char> = u.chars().collect();
    assert_eq!(b.len(), 36);
    assert_eq!(b[8], '-');
    assert_eq!(b[13], '-');
    assert_eq!(b[14], '4');
    assert_eq!(b[18], '-');
    assert_eq!(b[23], '-');
    assert!(matches!(b[19], '8' | '9' | 'a' | 'b'));
    for (i, c) in b.iter().enumerate() {
        if i == 8 || i == 13 || i == 18 || i == 23 {
            continue;
        }
        assert!(c.is_ascii_hexdigit());
    }
}

#[test]
fn stream_id_shape() {
    let id = new_stream_id();
    assert_eq!(id.len(), 43);
    assert!(id.starts_with("stream-"));
}

#[test]
fn yaml_document_loads() {
    let doc = "api_url: https://api.example.com\ntoken: tok\nagent_id: agent-7\nmtls_cert_pem: CERT\nmtls_key_pem: KEY\n";
    let cfg = load_agent_config_from_str(&doc.to_string()).unwrap();
    assert_eq!(cfg.api_url, s("https://api.example.com"));
    assert_eq!(cfg.token, s("tok"));
    assert_eq!(cfg.agent_id, s("agent-7"));
    assert_eq!(cfg.mtls_cert_pem, Some(s("CERT")));
    assert_eq!(cfg.mtls_key_pem, Some(s("KEY")));
}

#[test]
fn yaml_missing_field_is_reported() {
    let doc = "api_url: https://api.example.com\nagent_id: agent-7\n";
    let err = load_agent_config_from_str(&doc.to_string()).unwrap_err();
    assert_eq!(err, s("Missing 'token' in agent config"));
}

#[test]
fn yaml_non_string_field_counts_as_missing() {
    let doc = "api_url: 42\ntoken: tok\nagent_id: agent-7\n";
    let err = load_agent_config_from_str(&doc.to_string()).unwrap_err();
    assert_eq!(err, s("Missing 'api_url' in agent config"));
}

#[test]
fn yaml_parse_error_is_reported() {
    let doc = "api_url: [unclosed\n";
    let err = load_agent_config_from_str(&doc.to_string()).unwrap_err();
    assert!(err.starts_with("Failed to parse agent config:"));
}

#[test]
fn yaml_empty_pem_counts_as_absent() {
    let doc = "api_url: u\ntoken: t\nagent_id: a\nmtls_cert_pem: ''\nmtls_key_pem: KEY\n";
    let cfg = load_agent_config_from_str(&doc.to_string()).unwrap();
    assert_eq!(cfg.mtls_cert_pem, None);
    assert_eq!(cfg.mtls_key_pem, Some(s("KEY")));
    assert!(!cfg.summary().has_mtls);
}
