# kominer

A WebDAV sync target for KOReader's vocabulary builder, with a web page that lists the
synced words so that they can be mined into Anki.

The crate is written in Verus. `src/` is the verified library: it decides who may reach
the store (HTTP Basic credentials, a static account, short-lived sessions in public
mode), which WebDAV requests are served and where inside the user's directory they
land, how sessions are opened and expire, and what the event stream sends. `app/` is
the server around it: axum routing, the `dav-server` store, the SQLite reads and the
file system.

Modules of the library:

- `basic_auth`: reading Basic credentials from an `Authorization` header value.
- `session`: the static account, the session store, admission and session requests.
- `dav`: allowed methods and paths, `Content-Length`, the rewrite of request targets
  into the user's directory, and the whole decision for a WebDAV request.
- `vocabulary`, `events`: the other endpoints' decisions and shapes.
- `clock`, `text`: the wall clock and small text primitives.
