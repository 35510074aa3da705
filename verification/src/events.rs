//! Update notifications: the event that announces a newly uploaded database, and how the
//! stream of server-sent events answers what the notification channel delivers.

use vstd::prelude::*;
use crate::clock::now_nanos;
use crate::DB_FILE_NAME;

verus! {

/// The credentials with which a browser subscribes to the events of one user.
#[derive(Debug)]
pub struct EventsQuery {
    pub id: String,
    pub password: String,
}

/// An event about a user's database: what happened, to whom, to which file, and when
/// (nanoseconds since the Unix epoch).
#[derive(Debug)]
pub struct FileEvent {
    pub kind: String,
    pub id: String,
    pub path: String,
    pub at: i128,
}

/// The event that announces that user `id` uploaded a new database at time `now`.
pub fn file_updated_event_at(id: &str, now: i128) -> (r: FileEvent)
    ensures
        r.kind@ == "file-updated"@,
        r.id@ == id@,
        r.path@ == DB_FILE_NAME@,
        r.at == now,
{
    FileEvent {
        kind: "file-updated".to_owned(),
        id: id.to_owned(),
        path: DB_FILE_NAME.to_owned(),
        at: now,
    }
}

/// The event that announces, now by the wall clock, that user `id` uploaded a new
/// database.
pub fn file_updated_event(id: &str) -> (r: FileEvent)
    ensures
        r.kind@ == "file-updated"@,
        r.id@ == id@,
        r.path@ == DB_FILE_NAME@,
{
    file_updated_event_at(id, now_nanos())
}

/// What a subscriber's channel delivers: an event, word that the subscriber fell behind
/// and missed some events, or word that the channel closed.
#[derive(Debug)]
pub enum ChannelEvent {
    Received(FileEvent),
    Lagged(u64),
    Closed,
}

/// What the event stream does next: send an event named `file-updated` that carries the
/// file event, send a named event with the given data, or end.
#[derive(Debug)]
pub enum StreamStep {
    FileUpdated(FileEvent),
    Notice { name: String, data: String },
    End,
}

/// How the event stream answers what the channel delivered: a received event is passed
/// on, a lag is reported as a `warning` of kind `lagged`, and a closed channel ends the
/// stream.
pub fn stream_step(delivered: ChannelEvent) -> (r: StreamStep)
    ensures
        match delivered {
            ChannelEvent::Received(e) => r == StreamStep::FileUpdated(e),
            ChannelEvent::Lagged(_) => r matches StreamStep::Notice { name, data } && name@
                == "warning"@ && data@ == "{\"kind\":\"lagged\"}"@,
            ChannelEvent::Closed => r is End,
        },
{
    match delivered {
        ChannelEvent::Received(e) => StreamStep::FileUpdated(e),
        ChannelEvent::Lagged(_) => StreamStep::Notice {
            name: "warning".to_owned(),
            data: "{\"kind\":\"lagged\"}".to_owned(),
        },
        ChannelEvent::Closed => StreamStep::End,
    }
}

} // verus!
