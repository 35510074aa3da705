use kominer::basic_auth::{credentials_from_payload, parse_basic_auth};

fn parse(header: &str) -> Option<(String, String)> {
    parse_basic_auth(Some(header.as_bytes()))
}

#[test]
fn basic_credentials_are_decoded() {
    // "user:pass"
    assert_eq!(parse("Basic dXNlcjpwYXNz"), Some(("user".to_string(), "pass".to_string())));
}

#[test]
fn missing_header_gives_no_credentials() {
    assert_eq!(parse_basic_auth(None), None);
}

#[test]
fn other_schemes_are_not_basic() {
    assert_eq!(parse("Bearer dXNlcjpwYXNz"), None);
    assert_eq!(parse("basic dXNlcjpwYXNz"), None);
    assert_eq!(parse("BasicdXNlcjpwYXNz"), None);
}

#[test]
fn payload_must_be_standard_base64() {
    assert_eq!(parse("Basic not base64!"), None);
    // URL-safe alphabet is not the standard one
    assert_eq!(parse("Basic _-8="), None);
    // padding is required by the standard engine: "user:pas" unpadded
    assert_eq!(parse("Basic dXNlcjpwYXM"), None);
}

#[test]
fn payload_without_colon_is_refused() {
    // "user"
    assert_eq!(parse("Basic dXNlcg=="), None);
}

#[test]
fn only_the_first_colon_splits() {
    // "u:p:q"
    assert_eq!(parse("Basic dTpwOnE="), Some(("u".to_string(), "p:q".to_string())));
    // ":pw"
    assert_eq!(parse("Basic OnB3"), Some(("".to_string(), "pw".to_string())));
    // "user:"
    assert_eq!(parse("Basic dXNlcjo="), Some(("user".to_string(), "".to_string())));
}

#[test]
fn payload_must_be_utf8() {
    // bytes 0xff ':' 0x61
    assert_eq!(parse("Basic /zph"), None);
}

#[test]
fn non_ascii_utf8_credentials_are_kept() {
    // "jürgen:pässword"
    assert_eq!(
        parse("Basic asO8cmdlbjpww6Rzc3dvcmQ="),
        Some(("jürgen".to_string(), "pässword".to_string()))
    );
}

#[test]
fn header_must_be_visible_ascii() {
    let mut raw = b"Basic dXNlcjpwYXNz".to_vec();
    raw.push(0x80);
    assert_eq!(parse_basic_auth(Some(&raw)), None);
    let with_newline = b"Basic dXNl\ncjpwYXNz".to_vec();
    assert_eq!(parse_basic_auth(Some(&with_newline)), None);
}

#[test]
fn decoded_payloads_split_at_the_first_colon() {
    assert_eq!(credentials_from_payload(b"a:b:c".to_vec()), Some(("a".to_string(), "b:c".to_string())));
    assert_eq!(credentials_from_payload(b"nocolon".to_vec()), None);
    assert_eq!(credentials_from_payload(vec![0xff, b':']), None);
    assert_eq!(credentials_from_payload(b":".to_vec()), Some((String::new(), String::new())));
}

#[test]
fn credentials_round_trip_through_a_payload() {
    for (u, p) in [("alice", "secret"), ("", ""), ("jürgen", "a:b:c"), ("1234567890123456", "pässword")] {
        let payload = format!("{u}:{p}").into_bytes();
        assert_eq!(credentials_from_payload(payload), Some((u.to_string(), p.to_string())));
    }
}
