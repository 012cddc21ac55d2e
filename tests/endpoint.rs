use pulsar_bridge::endpoint::{
    certificate_source, effective_token, CertificateSource, first_token, non_blank_trimmed, normalize_endpoint, resolve_connection,
    split_url_and_token, EndpointError,
};

#[test]
fn secure_web_scheme_maps_to_ssl() {
    let (url, token) = split_url_and_token("https://h/").unwrap();
    assert_eq!(url, "pulsar+ssl://h");
    assert_eq!(token, None);
}

#[test]
fn plain_web_scheme_maps_to_pulsar() {
    let (url, _) = split_url_and_token("ws://h/").unwrap();
    assert_eq!(url, "pulsar://h");
    let (url, _) = split_url_and_token("http://h:8080/admin").unwrap();
    assert_eq!(url, "pulsar://h:8080/admin");
}

#[test]
fn native_scheme_is_untouched() {
    let (url, token) = split_url_and_token("pulsar://localhost:6650").unwrap();
    assert_eq!(url, "pulsar://localhost:6650");
    assert_eq!(token, None);
    let (again, token) = split_url_and_token(&url).unwrap();
    assert_eq!(again, url);
    assert_eq!(token, None);
}

#[test]
fn token_is_taken_from_query() {
    let (url, token) = split_url_and_token("wss://host:6651?token=abc#frag").unwrap();
    assert_eq!(url, "pulsar+ssl://host:6651");
    assert_eq!(token, Some("abc".to_string()));
}

#[test]
fn malformed_url_is_invalid_endpoint() {
    assert!(matches!(split_url_and_token("not a url"), Err(EndpointError::InvalidEndpoint(_))));
    assert!(matches!(
        resolve_connection("", None),
        Err(EndpointError::InvalidEndpoint(_))
    ));
}

#[test]
fn explicit_token_wins() {
    let target = resolve_connection("wss://host:6651?token=abc", Some("xyz".to_string())).unwrap();
    assert_eq!(target.service_url, "pulsar+ssl://host:6651");
    assert_eq!(target.token, Some("xyz".to_string()));
}

#[test]
fn embedded_token_used_without_explicit() {
    let target = resolve_connection("wss://host:6651?token=abc", None).unwrap();
    assert_eq!(target.token, Some("abc".to_string()));
    let blank = resolve_connection("wss://host:6651?token=abc", Some("  ".to_string())).unwrap();
    assert_eq!(blank.token, Some("abc".to_string()));
}

#[test]
fn no_token_anywhere() {
    let target = resolve_connection("pulsar://h:6650", None).unwrap();
    assert_eq!(target.token, None);
}

#[test]
fn token_choice_and_trimming() {
    assert_eq!(
        effective_token(Some(" a ".to_string()), Some("b".to_string())),
        Some(" a ".to_string())
    );
    assert_eq!(effective_token(Some("".to_string()), Some("b".to_string())), Some("b".to_string()));
    assert_eq!(effective_token(None, None), None);
    assert_eq!(non_blank_trimmed(&Some("  tok \n".to_string())), Some("tok".to_string()));
    assert_eq!(non_blank_trimmed(&Some(" \t".to_string())), None);
    assert_eq!(non_blank_trimmed(&None), None);
}

#[test]
fn first_token_pair_wins() {
    let pairs = vec![
        ("a".to_string(), "1".to_string()),
        ("token".to_string(), "first".to_string()),
        ("token".to_string(), "second".to_string()),
    ];
    assert_eq!(first_token(&pairs), Some("first".to_string()));
    assert_eq!(first_token(&Vec::new()), None);
}

#[test]
fn normalize_without_separator_fails() {
    assert!(matches!(
        normalize_endpoint("https", "x", "https:x"),
        Err(EndpointError::MissingSchemeSeparator(_))
    ));
    assert_eq!(normalize_endpoint("custom", "/", "custom://h/").ok(), Some("custom://h".to_string()));
}

#[test]
fn certificate_source_file_or_inline() {
    match certificate_source("/etc/ca.pem", true) {
        CertificateSource::File(path) => assert_eq!(path, "/etc/ca.pem"),
        other => panic!("unexpected {:?}", other),
    }
    match certificate_source("-----BEGIN CERTIFICATE-----", false) {
        CertificateSource::Inline(bytes) => assert_eq!(bytes, b"-----BEGIN CERTIFICATE-----".to_vec()),
        other => panic!("unexpected {:?}", other),
    }
}

#[test]
fn unicode_white_space_token_is_blank() {
    let target =
        resolve_connection("wss://host:6651?token=%20abc%20", Some("\u{3000}\t".to_string())).unwrap();
    assert_eq!(target.token, Some("abc".to_string()));
}
