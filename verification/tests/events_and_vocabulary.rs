use kominer::events::{file_updated_event, stream_step, ChannelEvent, FileEvent, StreamStep};
use kominer::session::{AuthMode, PrivateAuth, SessionStore};
use kominer::vocabulary::{authorize_vocabulary, authorize_vocabulary_at};

#[test]
fn file_updated_events_name_the_database() {
    let e = file_updated_event("1234567890123456");
    assert_eq!(e.kind, "file-updated");
    assert_eq!(e.id, "1234567890123456");
    assert_eq!(e.path, "vocabulary_builder.sqlite3");
    assert!(e.at > 1_600_000_000_000_000_000);
}

#[test]
fn stream_passes_events_and_reports_lag() {
    let ev = FileEvent { kind: "file-updated".into(), id: "x".into(), path: "p".into(), at: 7 };
    match stream_step(ChannelEvent::Received(ev)) {
        StreamStep::FileUpdated(e) => {
            assert_eq!(e.id, "x");
            assert_eq!(e.at, 7);
        }
        _ => panic!("not passed on"),
    }
    match stream_step(ChannelEvent::Lagged(3)) {
        StreamStep::Notice { name, data } => {
            assert_eq!(name, "warning");
            assert_eq!(data, r#"{"kind":"lagged"}"#);
        }
        _ => panic!("no notice"),
    }
    assert!(matches!(stream_step(ChannelEvent::Closed), StreamStep::End));
}

#[test]
fn vocabulary_readers_need_valid_credentials() {
    let auth = AuthMode::Private(PrivateAuth { user: "me".into(), password: "secret".into() });
    let store = SessionStore::new();
    let e = authorize_vocabulary_at(&auth, &store, None, 0).unwrap_err();
    assert_eq!((e.status, e.message.as_str()), (401, "missing authorization"));
    let e = authorize_vocabulary_at(&auth, &store, Some(b"Basic bWU6d3Jvbmc="), 0).unwrap_err();
    assert_eq!((e.status, e.message.as_str()), (401, "invalid session"));
    assert_eq!(authorize_vocabulary_at(&auth, &store, Some(b"Basic bWU6c2VjcmV0"), 0).unwrap(), "me");
    assert_eq!(authorize_vocabulary(&auth, &store, Some(b"Basic bWU6c2VjcmV0")).unwrap(), "me");
}

#[test]
fn file_updated_event_at_a_given_time() {
    let e = kominer::events::file_updated_event_at("42", 123);
    assert_eq!((e.kind.as_str(), e.id.as_str(), e.path.as_str(), e.at), ("file-updated", "42", "vocabulary_builder.sqlite3", 123));
}
