//! The vocabulary endpoint: who may read the entries of the synced database, and the
//! shape of what it answers.

use vstd::prelude::*;
use crate::basic_auth::{basic_credentials, parse_basic_auth};
use crate::clock::now_nanos;
use crate::dav::bytes_view;
use crate::session::{accepts, validate_session_at, AuthMode, SessionStore};
use crate::{ApiError, STATUS_UNAUTHORIZED};
use vstd::utf8::decode_utf8;

verus! {

/// One entry of the vocabulary builder: the word, the book it was looked up in, when, and
/// the text around it.
#[derive(Debug)]
pub struct VocabularyItem {
    pub word: String,
    pub title_id: i64,
    pub create_time: i64,
    pub prev_context: Option<String>,
    pub next_context: Option<String>,
    pub highlight: Option<String>,
}

/// The entries of the vocabulary builder, in the order in which they were read.
#[derive(Debug)]
pub struct VocabularyResponse {
    pub items: Vec<VocabularyItem>,
}

/// Who may read the vocabulary at time `now`: the user whose Basic credentials the
/// `Authorization` header carries, where `accepts` admits them; otherwise the status and
/// message of the refusal.
pub open spec fn vocabulary_reader(
    auth: AuthMode,
    sessions: Map<Seq<char>, (Seq<char>, i128)>,
    authorization: Option<Seq<u8>>,
    now: i128,
) -> Result<Seq<char>, (u16, Seq<char>)> {
    let credentials = match authorization {
        Some(v) => basic_credentials(v),
        None => None,
    };
    match credentials {
        None => Err((STATUS_UNAUTHORIZED, "missing authorization"@)),
        Some((user, password)) => if accepts(
            auth,
            sessions,
            decode_utf8(user),
            decode_utf8(password),
            now,
        ) {
            Ok(decode_utf8(user))
        } else {
            Err((STATUS_UNAUTHORIZED, "invalid session"@))
        },
    }
}

/// Whether an answer is the one that `vocabulary_reader` gives.
pub open spec fn reads_as(r: Result<String, ApiError>, expected: Result<Seq<char>, (u16, Seq<char>)>) -> bool {
    match expected {
        Ok(user) => r matches Ok(u) && u@ == user,
        Err((status, message)) => r matches Err(e) && e.status == status && e.message@ == message,
    }
}

/// The user who may read the vocabulary at time `now`, from the value of the request's
/// `Authorization` header.
pub fn authorize_vocabulary_at(
    auth: &AuthMode,
    sessions: &SessionStore,
    authorization: Option<&[u8]>,
    now: i128,
) -> (r: Result<String, ApiError>)
    ensures
        reads_as(r, vocabulary_reader(*auth, sessions@, bytes_view(authorization), now)),
{
    let (username, password) = match parse_basic_auth(authorization) {
        Some(c) => c,
        None => {
            return Err(
                ApiError { status: STATUS_UNAUTHORIZED, message: "missing authorization".to_owned() },
            );
        },
    };
    if !validate_session_at(auth, sessions, username.as_str(), password.as_str(), now) {
        return Err(ApiError { status: STATUS_UNAUTHORIZED, message: "invalid session".to_owned() });
    }
    Ok(username)
}

/// The user who may read the vocabulary now, by the wall clock.
pub fn authorize_vocabulary(
    auth: &AuthMode,
    sessions: &SessionStore,
    authorization: Option<&[u8]>,
) -> (r: Result<String, ApiError>)
    ensures
        exists|now: i128|
            reads_as(
                r,
                vocabulary_reader(*auth, sessions@, bytes_view(authorization), now),
            ),
{
    let now = now_nanos();
    authorize_vocabulary_at(auth, sessions, authorization, now)
}

/// The vocabulary endpoint admits exactly the credentials that the entrance admits,
/// against the same sessions and at the same time: for a header that carries credentials,
/// the reader is their user where `accepts` admits them, and the refusal is
/// `invalid session` where it does not.
pub proof fn law_vocabulary_admits_as_accepts(
    auth: AuthMode,
    sessions: Map<Seq<char>, (Seq<char>, i128)>,
    header: Seq<u8>,
    user: Seq<u8>,
    password: Seq<u8>,
    now: i128,
)
    requires
        basic_credentials(header) == Some((user, password)),
    ensures
        accepts(auth, sessions, decode_utf8(user), decode_utf8(password), now) ==> vocabulary_reader(
            auth,
            sessions,
            Some(header),
            now,
        ) == Ok::<Seq<char>, (u16, Seq<char>)>(decode_utf8(user)),
        !accepts(auth, sessions, decode_utf8(user), decode_utf8(password), now)
            ==> vocabulary_reader(auth, sessions, Some(header), now) == Err::<
            Seq<char>,
            (u16, Seq<char>),
        >((STATUS_UNAUTHORIZED, "invalid session"@)),
{
}

/// A request without a header that carries Basic credentials is refused as missing
/// authorization, whatever the sessions and the time.
pub proof fn law_vocabulary_needs_credentials(
    auth: AuthMode,
    sessions: Map<Seq<char>, (Seq<char>, i128)>,
    header: Option<Seq<u8>>,
    now: i128,
)
    requires
        !(header matches Some(v) && basic_credentials(v) is Some),
    ensures
        vocabulary_reader(auth, sessions, header, now) == Err::<Seq<char>, (u16, Seq<char>)>(
            (STATUS_UNAUTHORIZED, "missing authorization"@),
        ),
{
}

} // verus!
