use kominer::dav::{
    announces_upload, check_dav_request_at, content_length, handle_dav_request, is_allowed_dav_path,
    is_allowed_method, rewrite_dav_target, rewrite_dav_uri, unauthorized, DavDecision, DavRequest,
};
use kominer::session::{AuthMode, DavSession, PrivateAuth, SessionStore};
use kominer::MAX_DB_SIZE;

// "me:secret"
const ME: &str = "Basic bWU6c2VjcmV0";
// "me:wrong"
const ME_WRONG: &str = "Basic bWU6d3Jvbmc=";

fn private() -> AuthMode {
    AuthMode::Private(PrivateAuth { user: "me".to_string(), password: "secret".to_string() })
}

fn req<'a>(
    authorization: Option<&'a str>,
    method: &'a str,
    path: &'a str,
    length: Option<&'a str>,
) -> DavRequest<'a> {
    DavRequest {
        authorization: authorization.map(|a| a.as_bytes()),
        content_length: length.map(|l| l.as_bytes()),
        method,
        path,
        query: None,
    }
}

#[test]
fn allowed_paths_are_the_root_and_the_database() {
    assert!(is_allowed_dav_path("/dav/"));
    assert!(is_allowed_dav_path("/dav/vocabulary_builder.sqlite3"));
    assert!(!is_allowed_dav_path("/dav"));
    assert!(!is_allowed_dav_path("/dav/other.sqlite3"));
    assert!(!is_allowed_dav_path("/dav/vocabulary_builder.sqlite3/x"));
    assert!(!is_allowed_dav_path("/"));
}

#[test]
fn allowed_methods_are_those_of_a_dav_client() {
    for m in ["OPTIONS", "GET", "HEAD", "PUT", "PROPFIND", "LOCK", "UNLOCK"] {
        assert!(is_allowed_method(m), "{m}");
    }
    for m in ["DELETE", "POST", "MOVE", "COPY", "MKCOL", "PROPPATCH", "get", ""] {
        assert!(!is_allowed_method(m), "{m}");
    }
}

#[test]
fn content_length_reads_a_decimal_number() {
    assert_eq!(content_length(Some(b"123")), Some(123));
    assert_eq!(content_length(Some(b"0")), Some(0));
    assert_eq!(content_length(Some(b"+5")), Some(5));
    assert_eq!(content_length(Some(b"007")), Some(7));
    assert_eq!(content_length(Some(b"18446744073709551615")), Some(u64::MAX));
    assert_eq!(content_length(Some(b"18446744073709551616")), None);
    assert_eq!(content_length(Some(b"99999999999999999999999")), None);
    assert_eq!(content_length(Some(b"")), None);
    assert_eq!(content_length(Some(b"+")), None);
    assert_eq!(content_length(Some(b"-1")), None);
    assert_eq!(content_length(Some(b" 1")), None);
    assert_eq!(content_length(Some(b"1 ")), None);
    assert_eq!(content_length(Some(b"12a")), None);
    assert_eq!(content_length(Some(b"1\x802")), None);
    assert_eq!(content_length(None), None);
}

#[test]
fn targets_move_under_the_user_directory() {
    assert_eq!(rewrite_dav_target("/dav", None, "u").unwrap(), "/u/");
    assert_eq!(rewrite_dav_target("/dav/", None, "u").unwrap(), "/u/");
    assert_eq!(
        rewrite_dav_target("/dav/vocabulary_builder.sqlite3", None, "1234").unwrap(),
        "/1234/vocabulary_builder.sqlite3"
    );
    assert_eq!(rewrite_dav_target("/davx", None, "u").unwrap(), "/u/x");
    assert_eq!(rewrite_dav_target("/dav/a", Some("b=1"), "u").unwrap(), "/u/a?b=1");
    assert_eq!(rewrite_dav_target("/dav", Some(""), "u").unwrap(), "/u/?");
    assert_eq!(rewrite_dav_target("/other", None, "u").unwrap_err(), "invalid dav path");
    assert_eq!(rewrite_dav_target("/da", None, "u").unwrap_err(), "invalid dav path");
}

#[test]
fn rewritten_uris_are_parsed() {
    let uri = rewrite_dav_uri("/dav/x", Some("q=1"), "me").unwrap();
    assert_eq!(uri.path(), "/me/x");
    assert_eq!(uri.query(), Some("q=1"));
    assert_eq!(rewrite_dav_uri("/nope", None, "me").unwrap_err(), "invalid dav path");
    // a user name with a space does not make a URI
    let err = rewrite_dav_uri("/dav/", None, "a b").unwrap_err();
    assert!(!err.is_empty());
    assert_ne!(err, "invalid dav path");
}

#[test]
fn unauthorized_asks_for_basic_credentials() {
    let r = unauthorized();
    assert_eq!(r.status, 401);
    assert_eq!(r.body, "Unauthorized");
    assert_eq!(r.challenge.as_deref(), Some("Basic realm=\"webdav\""));
}

#[test]
fn entrance_refuses_requests_without_valid_credentials() {
    let store = SessionStore::new();
    for a in [None, Some("Basic ???"), Some(ME_WRONG)] {
        let e = check_dav_request_at(&private(), &store, 0, &req(a, "GET", "/dav/", None)).unwrap_err();
        assert_eq!(e.status, 401);
        assert_eq!(e.body, "Unauthorized");
        assert!(e.challenge.is_some());
    }
}

#[test]
fn entrance_refuses_unknown_methods_and_paths() {
    let store = SessionStore::new();
    let e = check_dav_request_at(&private(), &store, 0, &req(Some(ME), "DELETE", "/dav/", None))
        .unwrap_err();
    assert_eq!((e.status, e.body.as_str()), (405, "method not allowed"));
    assert!(e.challenge.is_none());
    let e = check_dav_request_at(&private(), &store, 0, &req(Some(ME), "GET", "/dav/x.db", None))
        .unwrap_err();
    assert_eq!((e.status, e.body.as_str()), (403, "only vocabulary_builder.sqlite3 is allowed"));
}

#[test]
fn entrance_checks_uploads() {
    let store = SessionStore::new();
    let db = "/dav/vocabulary_builder.sqlite3";
    let e = check_dav_request_at(&private(), &store, 0, &req(Some(ME), "PUT", db, None)).unwrap_err();
    assert_eq!((e.status, e.body.as_str()), (411, "Content-Length required for uploads"));
    let e = check_dav_request_at(&private(), &store, 0, &req(Some(ME), "PUT", db, Some("abc")))
        .unwrap_err();
    assert_eq!(e.status, 411);
    let too_big = (MAX_DB_SIZE + 1).to_string();
    let e = check_dav_request_at(&private(), &store, 0, &req(Some(ME), "PUT", db, Some(&too_big)))
        .unwrap_err();
    assert_eq!((e.status, e.body.as_str()), (413, "file too large; max 26214400 bytes"));
    let e = check_dav_request_at(&private(), &store, 0, &req(Some(ME), "PUT", "/dav/", Some("10")))
        .unwrap_err();
    assert_eq!((e.status, e.body.as_str()), (403, "uploads are only allowed to vocabulary_builder.sqlite3"));
    let max = MAX_DB_SIZE.to_string();
    let pass = check_dav_request_at(&private(), &store, 0, &req(Some(ME), "PUT", db, Some(&max)))
        .unwrap();
    assert_eq!(pass.username, "me");
    assert_eq!(pass.target, "/me/vocabulary_builder.sqlite3");
    assert!(pass.is_upload);
}

#[test]
fn entrance_passes_reads_into_the_user_directory() {
    let store = SessionStore::new();
    let mut r = req(Some(ME), "PROPFIND", "/dav/", None);
    r.query = Some("depth=1");
    let pass = check_dav_request_at(&private(), &store, 0, &r).unwrap();
    assert_eq!(pass.target, "/me/?depth=1");
    assert!(!pass.is_upload);
}

#[test]
fn entrance_follows_session_expiry_in_public_mode() {
    let auth = AuthMode::Public(None);
    let mut store = SessionStore::new();
    store.insert(DavSession {
        id: "1234567890123456".to_string(),
        password: "pw".to_string(),
        expires_at: 100,
    });
    // "1234567890123456:pw"
    let header = "Basic MTIzNDU2Nzg5MDEyMzQ1Njpwdw==";
    assert!(check_dav_request_at(&auth, &store, 99, &req(Some(header), "GET", "/dav/", None)).is_ok());
    assert_eq!(
        check_dav_request_at(&auth, &store, 100, &req(Some(header), "GET", "/dav/", None))
            .unwrap_err()
            .status,
        401
    );
}

#[test]
fn handled_requests_are_forwarded_with_a_uri() {
    let store = SessionStore::new();
    match handle_dav_request(&private(), &store, &req(Some(ME), "GET", "/dav/vocabulary_builder.sqlite3", None)) {
        DavDecision::Forward { username, uri, is_upload } => {
            assert_eq!(username, "me");
            assert_eq!(uri.path(), "/me/vocabulary_builder.sqlite3");
            assert!(!is_upload);
        }
        DavDecision::Refuse(_) => panic!("refused"),
    }
    match handle_dav_request(&private(), &store, &req(None, "GET", "/dav/", None)) {
        DavDecision::Refuse(e) => assert_eq!(e.status, 401),
        DavDecision::Forward { .. } => panic!("forwarded"),
    }
}

#[test]
fn handled_request_with_unparsable_target_is_bad_request() {
    let auth = AuthMode::Private(PrivateAuth { user: "a b".to_string(), password: "p".to_string() });
    let store = SessionStore::new();
    // "a b:p"
    match handle_dav_request(&auth, &store, &req(Some("Basic YSBiOnA="), "GET", "/dav/", None)) {
        DavDecision::Refuse(e) => {
            assert_eq!(e.status, 400);
            assert!(e.challenge.is_none());
        }
        DavDecision::Forward { .. } => panic!("forwarded"),
    }
}

#[test]
fn only_successful_uploads_are_announced() {
    assert!(announces_upload(true, 201));
    assert!(announces_upload(true, 204));
    assert!(!announces_upload(true, 404));
    assert!(!announces_upload(true, 199));
    assert!(!announces_upload(false, 200));
}
