//! Accounts and sessions: the static account, the sessions that public mode hands out,
//! and the checks that decide whether a user name and a password may reach the store.

use vstd::prelude::*;
use vstd::utf8::encode_utf8;
use crate::clock::now_nanos;
use crate::text::text_equal;
use crate::{
    ApiError, SESSION_LIFETIME_NANOS, SESSION_LIMIT, STATUS_BAD_REQUEST, STATUS_TOO_MANY_REQUESTS,
    STATUS_UNAUTHORIZED,
};

verus! {

/// The static account: the user name and password given to the service when it starts.
#[derive(Debug)]
pub struct PrivateAuth {
    pub user: String,
    pub password: String,
}

/// How the service admits users.
#[derive(Debug)]
pub enum AuthMode {
    /// Only the static account is admitted, at any time.
    Private(PrivateAuth),
    /// Anyone may open a session under a 16-digit id; a static account, where one was
    /// given, is admitted besides the sessions.
    Public(Option<PrivateAuth>),
}

/// A session of public mode: its id (which is also its user name), its password and the
/// time, in nanoseconds since the Unix epoch, at which it expires.
#[derive(Debug)]
pub struct DavSession {
    pub id: String,
    pub password: String,
    pub expires_at: i128,
}

/// What the store keeps of a session: its password and its expiry time.
pub open spec fn session_record(s: DavSession) -> (Seq<char>, i128) {
    (s.password@, s.expires_at)
}

/// The sessions of a sequence, keyed by id; where ids are distinct, each id maps to the
/// record of the session that carries it.
pub open spec fn sessions_by_id(s: Seq<DavSession>) -> Map<Seq<char>, (Seq<char>, i128)> {
    Map::new(
        |id: Seq<char>| exists|i: int| 0 <= i < s.len() && #[trigger] s[i].id@ == id,
        |id: Seq<char>|
            {
                let i = choose|i: int| 0 <= i < s.len() && #[trigger] s[i].id@ == id;
                session_record(s[i])
            },
    )
}

/// No two sessions of the sequence share an id.
pub open spec fn ids_distinct(s: Seq<DavSession>) -> bool {
    forall|i: int, j: int| 0 <= i < s.len() && 0 <= j < s.len() && i != j ==> s[i].id@ != s[j].id@
}

/// The sessions of `m` that are still open at time `now`: those that expire after it.
pub open spec fn live_at(
    m: Map<Seq<char>, (Seq<char>, i128)>,
    now: i128,
) -> Map<Seq<char>, (Seq<char>, i128)> {
    Map::new(|id: Seq<char>| m.contains_key(id) && m[id].1 > now, |id: Seq<char>| m[id])
}

/// The ids of the sessions of `m` that have expired at time `now`.
pub open spec fn expired_at(m: Map<Seq<char>, (Seq<char>, i128)>, now: i128) -> Set<Seq<char>> {
    Set::new(|id: Seq<char>| m.contains_key(id) && m[id].1 <= now)
}

/// The characters of each string of a sequence.
pub open spec fn texts(v: Seq<String>) -> Seq<Seq<char>> {
    v.map_values(|s: String| s@)
}

/// The open sessions. No two of them share an id.
pub struct SessionStore {
    sessions: Vec<DavSession>,
}

/// The view of a session in a distinct sequence is its record.
pub proof fn lemma_sessions_by_id_entry(s: Seq<DavSession>, i: int)
    requires
        ids_distinct(s),
        0 <= i < s.len(),
    ensures
        sessions_by_id(s).contains_key(s[i].id@),
        sessions_by_id(s)[s[i].id@] == session_record(s[i]),
{
    let id = s[i].id@;
    assert(s[i].id@ == id);
    let j = choose|j: int| 0 <= j < s.len() && #[trigger] s[j].id@ == id;
    assert(j == i);
}

/// An id that no session of the sequence carries is not in its view.
pub proof fn lemma_sessions_by_id_absent(s: Seq<DavSession>, id: Seq<char>)
    requires
        forall|i: int| 0 <= i < s.len() ==> s[i].id@ != id,
    ensures
        !sessions_by_id(s).contains_key(id),
{
}

/// The view of a distinct sequence has as many entries as the sequence.
pub proof fn lemma_sessions_by_id_len(s: Seq<DavSession>)
    requires
        ids_distinct(s),
    ensures
        sessions_by_id(s).len() == s.len(),
        sessions_by_id(s).dom().finite(),
{
    let ids = s.map_values(|x: DavSession| x.id@);
    assert(ids.no_duplicates());
    ids.unique_seq_to_set();
    assert forall|id: Seq<char>| sessions_by_id(s).dom().contains(id) <==> ids.to_set().contains(
        id,
    ) by {
        if sessions_by_id(s).dom().contains(id) {
            let i = choose|i: int| 0 <= i < s.len() && #[trigger] s[i].id@ == id;
            assert(ids[i] == id);
        }
        if ids.to_set().contains(id) {
            let i = choose|i: int| 0 <= i < ids.len() && ids[i] == id;
            assert(s[i].id@ == id);
        }
    }
    assert(sessions_by_id(s).dom() =~= ids.to_set());
}

/// The position of the session with the given id in a sequence of sessions.
fn position(sessions: &Vec<DavSession>, id: &str) -> (r: Option<usize>)
    ensures
        match r {
            Some(i) => i < sessions@.len() && sessions@[i as int].id@ == id@,
            None => forall|i: int| 0 <= i < sessions@.len() ==> sessions@[i].id@ != id@,
        },
{
    let mut i: usize = 0;
    while i < sessions.len()
        invariant
            0 <= i <= sessions@.len(),
            forall|j: int| 0 <= j < i ==> sessions@[j].id@ != id@,
        decreases sessions@.len() - i,
    {
        if text_equal(sessions[i].id.as_str(), id) {
            return Some(i);
        }
        i = i + 1;
    }
    None
}

impl View for SessionStore {
    type V = Map<Seq<char>, (Seq<char>, i128)>;

    /// The open sessions, keyed by id.
    closed spec fn view(&self) -> Map<Seq<char>, (Seq<char>, i128)> {
        sessions_by_id(self.sessions@)
    }
}

impl SessionStore {
    #[verifier::type_invariant]
    spec fn ids_are_distinct(self) -> bool {
        ids_distinct(self.sessions@)
    }

    /// A store without sessions.
    pub fn new() -> (r: SessionStore)
        ensures
            r@ == Map::<Seq<char>, (Seq<char>, i128)>::empty(),
    {
        let r = SessionStore { sessions: Vec::new() };
        assert(r@ =~= Map::<Seq<char>, (Seq<char>, i128)>::empty());
        r
    }

    /// The number of open sessions.
    pub fn len(&self) -> (r: usize)
        ensures
            r == self@.len(),
            self@.dom().finite(),
    {
        proof {
            use_type_invariant(self);
            lemma_sessions_by_id_len(self.sessions@);
        }
        self.sessions.len()
    }

    /// The session with the given id, if one is open.
    pub fn get(&self, id: &str) -> (r: Option<&DavSession>)
        ensures
            match r {
                Some(s) => self@.contains_key(id@) && s.id@ == id@ && self@[id@] == session_record(
                    *s,
                ),
                None => !self@.contains_key(id@),
            },
    {
        proof {
            use_type_invariant(self);
        }
        match position(&self.sessions, id) {
            Some(i) => {
                proof {
                    lemma_sessions_by_id_entry(self.sessions@, i as int);
                }
                Some(&self.sessions[i])
            },
            None => {
                proof {
                    lemma_sessions_by_id_absent(self.sessions@, id@);
                }
                None
            },
        }
    }

    /// Whether a session with the given id is open.
    pub fn contains(&self, id: &str) -> (r: bool)
        ensures
            r == self@.contains_key(id@),
    {
        self.get(id).is_some()
    }

    /// Opens the session, or replaces the open one with the same id.
    pub fn insert(&mut self, session: DavSession)
        ensures
            final(self)@ == old(self)@.insert(session.id@, session_record(session)),
    {
        proof {
            use_type_invariant(&*self);
        }
        let ghost before = self.sessions@;
        let ghost id = session.id@;
        let ghost rec = session_record(session);
        let mut sessions: Vec<DavSession> = Vec::new();
        std::mem::swap(&mut sessions, &mut self.sessions);
        let found = position(&sessions, session.id.as_str());
        match found {
            Some(i) => {
                sessions.set(i, session);
                proof {
                    let after = sessions@;
                    assert(after =~= before.update(i as int, after[i as int]));
                    assert(ids_distinct(after));
                    assert forall|k: Seq<char>|
                        #![trigger sessions_by_id(after).contains_key(k)]
                        sessions_by_id(after).contains_key(k) == sessions_by_id(before).insert(
                            id,
                            rec,
                        ).contains_key(k) && (sessions_by_id(after).contains_key(k)
                            ==> sessions_by_id(after)[k] == sessions_by_id(before).insert(
                            id,
                            rec,
                        )[k]) by {
                        if k == id {
                            lemma_sessions_by_id_entry(after, i as int);
                        } else if exists|j: int| 0 <= j < before.len() && #[trigger] before[j].id@ == k {
                            let j = choose|j: int| 0 <= j < before.len() && #[trigger] before[j].id@ == k;
                            assert(j != i);
                            assert(after[j] == before[j]);
                            lemma_sessions_by_id_entry(after, j);
                            lemma_sessions_by_id_entry(before, j);
                        } else {
                            assert forall|j: int| 0 <= j < after.len() implies after[j].id@ != k by {
                                if j != i {
                                    assert(after[j] == before[j]);
                                }
                            }
                            lemma_sessions_by_id_absent(after, k);
                            lemma_sessions_by_id_absent(before, k);
                        }
                    }
                    assert(sessions_by_id(after) =~= sessions_by_id(before).insert(id, rec));
                }
            },
            None => {
                sessions.push(session);
                proof {
                    let after = sessions@;
                    assert(after =~= before.push(after[before.len() as int]));
                    assert(ids_distinct(after));
                    assert forall|k: Seq<char>|
                        #![trigger sessions_by_id(after).contains_key(k)]
                        sessions_by_id(after).contains_key(k) == sessions_by_id(before).insert(
                            id,
                            rec,
                        ).contains_key(k) && (sessions_by_id(after).contains_key(k)
                            ==> sessions_by_id(after)[k] == sessions_by_id(before).insert(
                            id,
                            rec,
                        )[k]) by {
                        if k == id {
                            lemma_sessions_by_id_entry(after, before.len() as int);
                        } else if exists|j: int| 0 <= j < before.len() && #[trigger] before[j].id@ == k {
                            let j = choose|j: int| 0 <= j < before.len() && #[trigger] before[j].id@ == k;
                            assert(after[j] == before[j]);
                            lemma_sessions_by_id_entry(after, j);
                            lemma_sessions_by_id_entry(before, j);
                        } else {
                            assert forall|j: int| 0 <= j < after.len() implies after[j].id@ != k by {
                                if j < before.len() {
                                    assert(after[j] == before[j]);
                                }
                            }
                            lemma_sessions_by_id_absent(after, k);
                            lemma_sessions_by_id_absent(before, k);
                        }
                    }
                    assert(sessions_by_id(after) =~= sessions_by_id(before).insert(id, rec));
                }
            },
        }
        self.sessions = sessions;
    }

    /// Closes every session that has expired at time `now` (its expiry time is `now` or
    /// earlier) and returns the ids of the closed sessions.
    pub fn purge_expired_at(&mut self, now: i128) -> (r: Vec<String>)
        ensures
            final(self)@ == live_at(old(self)@, now),
            texts(r@).to_set() == expired_at(old(self)@, now),
            texts(r@).no_duplicates(),
    {
        proof {
            use_type_invariant(&*self);
        }
        let ghost m = self@;
        let mut before: Vec<DavSession> = Vec::new();
        std::mem::swap(&mut before, &mut self.sessions);
        let ghost old_s = before@;
        assert(ids_distinct(old_s));
        let mut kept: Vec<DavSession> = Vec::new();
        let mut removed: Vec<String> = Vec::new();
        // for each kept session and each removed id, the index of its session in `old_s`;
        // for each visited session, its index in `kept` or in `removed`
        let ghost mut kept_from: Seq<int> = Seq::empty();
        let ghost mut removed_from: Seq<int> = Seq::empty();
        let ghost mut placed: Seq<int> = Seq::empty();
        let mut i: usize = 0;
        while i < before.len()
            invariant
                old_s == before@,
                ids_distinct(old_s),
                0 <= i <= old_s.len(),
                ids_distinct(kept@),
                kept_from.len() == kept@.len(),
                removed_from.len() == removed@.len(),
                placed.len() == i,
                forall|k: int|
                    0 <= k < kept@.len() ==> 0 <= #[trigger] kept_from[k] < i && old_s[kept_from[k]]
                        == kept@[k] && old_s[kept_from[k]].expires_at > now,
                forall|k: int|
                    0 <= k < removed@.len() ==> 0 <= #[trigger] removed_from[k] < i
                        && old_s[removed_from[k]].id@ == removed@[k]@
                        && old_s[removed_from[k]].expires_at <= now,
                forall|j: int|
                    0 <= j < i && old_s[j].expires_at > now ==> 0 <= #[trigger] placed[j]
                        < kept@.len() && kept@[placed[j]] == old_s[j],
                forall|j: int|
                    0 <= j < i && old_s[j].expires_at <= now ==> 0 <= #[trigger] placed[j]
                        < removed@.len() && removed@[placed[j]]@ == old_s[j].id@,
                forall|k1: int, k2: int|
                    0 <= k1 < removed@.len() && 0 <= k2 < removed@.len() && k1 != k2
                        ==> removed@[k1]@ != removed@[k2]@,
            decreases old_s.len() - i,
        {
            let ghost gi = i as int;
            let s = &before[i];
            if s.expires_at > now {
                let copy = DavSession {
                    id: s.id.clone(),
                    password: s.password.clone(),
                    expires_at: s.expires_at,
                };
                proof {
                    assert(copy == old_s[gi]);
                    assert forall|k: int| 0 <= k < kept@.len() implies kept@[k].id@ != copy.id@ by {
                        assert(kept_from[k] != gi);
                    }
                    placed = placed.push(kept@.len() as int);
                    kept_from = kept_from.push(gi);
                }
                kept.push(copy);
            } else {
                let id = s.id.clone();
                proof {
                    assert forall|k: int| 0 <= k < removed@.len() implies removed@[k]@ != id@ by {
                        assert(removed_from[k] != gi);
                    }
                    placed = placed.push(removed@.len() as int);
                    removed_from = removed_from.push(gi);
                }
                removed.push(id);
            }
            i = i + 1;
        }
        proof {
            let after = kept@;
            assert forall|id: Seq<char>|
                #![trigger sessions_by_id(after).contains_key(id)]
                sessions_by_id(after).contains_key(id) == live_at(m, now).contains_key(id) && (
                sessions_by_id(after).contains_key(id) ==> sessions_by_id(after)[id] == live_at(
                    m,
                    now,
                )[id]) by {
                if sessions_by_id(after).contains_key(id) {
                    let k = choose|k: int| 0 <= k < after.len() && #[trigger] after[k].id@ == id;
                    let j = kept_from[k];
                    lemma_sessions_by_id_entry(after, k);
                    lemma_sessions_by_id_entry(old_s, j);
                } else if m.contains_key(id) {
                    let j = choose|j: int| 0 <= j < old_s.len() && #[trigger] old_s[j].id@ == id;
                    lemma_sessions_by_id_entry(old_s, j);
                    if old_s[j].expires_at > now {
                        let k = placed[j];
                        assert(after[k].id@ == id);
                    }
                }
            }
            assert(sessions_by_id(after) =~= live_at(m, now));
            let ids = texts(removed@);
            assert forall|id: Seq<char>| ids.to_set().contains(id) <==> expired_at(m, now).contains(
                id,
            ) by {
                if ids.to_set().contains(id) {
                    let k = choose|k: int| 0 <= k < ids.len() && ids[k] == id;
                    assert(removed@[k]@ == id);
                    lemma_sessions_by_id_entry(old_s, removed_from[k]);
                }
                if expired_at(m, now).contains(id) {
                    let j = choose|j: int| 0 <= j < old_s.len() && #[trigger] old_s[j].id@ == id;
                    lemma_sessions_by_id_entry(old_s, j);
                    let k = placed[j];
                    assert(ids[k] == id);
                }
            }
            assert(ids.to_set() =~= expired_at(m, now));
        }
        self.sessions = kept;
        removed
    }
}


/// The number of bytes of a public-mode user id.
pub const USER_ID_LEN: usize = 16;

/// An ASCII decimal digit.
pub open spec fn is_ascii_digit(b: u8) -> bool {
    0x30 <= b <= 0x39
}

/// A user id of public mode: 16 bytes, each an ASCII decimal digit.
pub open spec fn is_user_id(id: Seq<char>) -> bool {
    let b = encode_utf8(id);
    &&& b.len() == USER_ID_LEN
    &&& forall|i: int| 0 <= i < b.len() ==> is_ascii_digit(#[trigger] b[i])
}

/// Whether `s` is a user id of public mode: 16 ASCII decimal digits.
pub fn is_valid_user_id(s: &str) -> (r: bool)
    ensures
        r == is_user_id(s@),
{
    if s.len() != USER_ID_LEN {
        return false;
    }
    let bytes = s.as_bytes();
    let mut i: usize = 0;
    while i < bytes.len()
        invariant
            bytes@ == encode_utf8(s@),
            0 <= i <= bytes@.len(),
            forall|j: int| 0 <= j < i ==> is_ascii_digit(#[trigger] bytes@[j]),
        decreases bytes@.len() - i,
    {
        if !(0x30 <= bytes[i] && bytes[i] <= 0x39) {
            return false;
        }
        i = i + 1;
    }
    true
}

/// Whether a user name and a password are those of the static account.
pub open spec fn is_account(a: PrivateAuth, user: Seq<char>, password: Seq<char>) -> bool {
    a.user@ == user && a.password@ == password
}

/// Whether `user` and `password` may reach the store at time `now`. In private mode,
/// exactly the static account may. In public mode, a user whose session is open must give
/// its password, and the session must not have expired; a user without a session may
/// only be the static account, where one was given.
pub open spec fn accepts(
    auth: AuthMode,
    sessions: Map<Seq<char>, (Seq<char>, i128)>,
    user: Seq<char>,
    password: Seq<char>,
    now: i128,
) -> bool {
    match auth {
        AuthMode::Private(a) => is_account(a, user, password),
        AuthMode::Public(fallback) => if sessions.contains_key(user) {
            sessions[user].0 == password && sessions[user].1 > now
        } else {
            match fallback {
                Some(a) => is_account(a, user, password),
                None => false,
            }
        },
    }
}

/// Whether `user` and `password` are those of the static account, where one was given.
fn matches_account(account: &Option<PrivateAuth>, user: &str, password: &str) -> (r: bool)
    ensures
        r == match *account {
            Some(a) => is_account(a, user@, password@),
            None => false,
        },
{
    match account {
        Some(a) => text_equal(a.user.as_str(), user) && text_equal(a.password.as_str(), password),
        None => false,
    }
}

/// Whether `username` and `password` may reach the store at time `now` (nanoseconds
/// since the Unix epoch).
pub fn validate_session_at(
    auth: &AuthMode,
    sessions: &SessionStore,
    username: &str,
    password: &str,
    now: i128,
) -> (r: bool)
    ensures
        r == accepts(*auth, sessions@, username@, password@, now),
{
    match auth {
        AuthMode::Private(a) => text_equal(username, a.user.as_str()) && text_equal(
            password,
            a.password.as_str(),
        ),
        AuthMode::Public(fallback) => match sessions.get(username) {
            Some(session) => text_equal(session.id.as_str(), username) && text_equal(
                session.password.as_str(),
                password,
            ) && session.expires_at > now,
            None => matches_account(fallback, username, password),
        },
    }
}

/// Whether `username` and `password` may reach the store now, by the wall clock.
pub fn validate_session(
    auth: &AuthMode,
    sessions: &SessionStore,
    username: &str,
    password: &str,
) -> (r: bool)
    ensures
        exists|now: i128|
            r == accepts(
                *auth,
                sessions@,
                username@,
                password@,
                now,
            ),
{
    let now = now_nanos();
    validate_session_at(auth, sessions, username, password, now)
}

/// A request to open a session: the id, which also serves as user name, and the password.
#[derive(Debug)]
pub struct SessionRequest {
    pub id: String,
    pub password: String,
}

/// The answer to a session that was opened: the id, the user name and the password with
/// which to reach the store, and, in public mode, when the session expires.
#[derive(Debug)]
pub struct SessionResponse {
    pub id: String,
    pub username: String,
    pub password: String,
    pub expires_at: Option<i128>,
}

/// Whether a request may claim an id under which no session is open: any id is free
/// except the static account's user name, which only its password claims.
pub open spec fn may_claim(account: Option<PrivateAuth>, id: Seq<char>, password: Seq<char>) -> bool {
    match account {
        Some(a) => a.user@ == id ==> a.password@ == password,
        None => true,
    }
}

/// Whether a request may claim an id under which no session is open.
fn claims_free_id(account: &Option<PrivateAuth>, id: &str, password: &str) -> (r: bool)
    ensures
        r == may_claim(*account, id@, password@),
{
    match account {
        Some(a) => !text_equal(a.user.as_str(), id) || text_equal(a.password.as_str(), password),
        None => true,
    }
}

/// Why a request to open a session is refused, as an HTTP status and a message, or
/// `None` where it is admitted. In private mode only the static account is admitted. In
/// public mode the id must be 16 digits; an open session with that id must have the same
/// password, and a free id may be claimed with any password unless it is the static
/// account's user name, which needs the account's password; a new id finds room only
/// while fewer than the session limit are open.
pub open spec fn session_request_refusal(
    auth: AuthMode,
    sessions: Map<Seq<char>, (Seq<char>, i128)>,
    id: Seq<char>,
    password: Seq<char>,
) -> Option<(u16, Seq<char>)> {
    match auth {
        AuthMode::Private(a) => if is_account(a, id, password) {
            None
        } else {
            Some((STATUS_UNAUTHORIZED, "invalid username or password"@))
        },
        AuthMode::Public(fallback) => if !is_user_id(id) {
            Some((STATUS_BAD_REQUEST, "user_id must be 16 digits"@))
        } else if !(if sessions.contains_key(id) {
            sessions[id].0 == password
        } else {
            may_claim(fallback, id, password)
        }) {
            Some((STATUS_UNAUTHORIZED, "password doesn't match active session"@))
        } else if !sessions.contains_key(id) && sessions.len() >= SESSION_LIMIT {
            Some((STATUS_TOO_MANY_REQUESTS, "too many people connected, try again later"@))
        } else {
            None
        },
    }
}

fn refusal(status: u16, message: &str) -> (r: ApiError)
    ensures
        r.status == status,
        r.message@ == message@,
{
    ApiError { status, message: message.to_owned() }
}

/// Decides whether a request to open a session may go ahead, before anything is created
/// for it.
pub fn check_session_request(
    auth: &AuthMode,
    sessions: &SessionStore,
    req: &SessionRequest,
) -> (r: Result<(), ApiError>)
    ensures
        match session_request_refusal(*auth, sessions@, req.id@, req.password@) {
            None => r is Ok,
            Some((status, message)) => r matches Err(e) && e.status == status && e.message@
                == message,
        },
{
    match auth {
        AuthMode::Private(a) => {
            if text_equal(req.id.as_str(), a.user.as_str()) && text_equal(
                req.password.as_str(),
                a.password.as_str(),
            ) {
                Ok(())
            } else {
                Err(refusal(STATUS_UNAUTHORIZED, "invalid username or password"))
            }
        },
        AuthMode::Public(fallback) => {
            if !is_valid_user_id(req.id.as_str()) {
                return Err(refusal(STATUS_BAD_REQUEST, "user_id must be 16 digits"));
            }
            let passes_auth = match sessions.get(req.id.as_str()) {
                Some(session) => text_equal(session.id.as_str(), req.id.as_str()) && text_equal(
                    session.password.as_str(),
                    req.password.as_str(),
                ),
                None => claims_free_id(fallback, req.id.as_str(), req.password.as_str()),
            };
            if !passes_auth {
                return Err(
                    refusal(STATUS_UNAUTHORIZED, "password doesn't match active session"),
                );
            }
            let is_new_session_id = !sessions.contains(req.id.as_str());
            if is_new_session_id && sessions.len() >= SESSION_LIMIT as usize {
                return Err(
                    refusal(STATUS_TOO_MANY_REQUESTS, "too many people connected, try again later"),
                );
            }
            Ok(())
        },
    }
}

/// When a session opened at time `now` expires: one hour later, or at the last
/// representable instant where one hour later lies beyond it.
pub open spec fn expiry_after(now: i128) -> i128 {
    if now <= i128::MAX - SESSION_LIFETIME_NANOS {
        (now + SESSION_LIFETIME_NANOS) as i128
    } else {
        i128::MAX
    }
}

/// Whether `r` answers `req` and the store went from `before` to `after` as opening a
/// session at time `now` does: in public mode the session is recorded (replacing any
/// open session with the same id) and expires at `expiry_after(now)`; in private mode
/// nothing is recorded and the answer has no expiry.
pub open spec fn opens_session(
    auth: AuthMode,
    before: Map<Seq<char>, (Seq<char>, i128)>,
    after: Map<Seq<char>, (Seq<char>, i128)>,
    req: SessionRequest,
    r: SessionResponse,
    now: i128,
) -> bool {
    &&& r.id@ == req.id@
    &&& r.username@ == req.id@
    &&& r.password@ == req.password@
    &&& match auth {
        AuthMode::Private(_) => r.expires_at is None && after == before,
        AuthMode::Public(_) => r.expires_at == Some(expiry_after(now)) && after == before.insert(
            req.id@,
            (req.password@, expiry_after(now)),
        ),
    }
}

/// Opens, at time `now`, the session that a request asks for, once it has been admitted,
/// and answers it.
pub fn open_session_at(
    auth: &AuthMode,
    sessions: &mut SessionStore,
    req: SessionRequest,
    now: i128,
) -> (r: SessionResponse)
    ensures
        opens_session(*auth, old(sessions)@, final(sessions)@, req, r, now),
{
    match auth {
        AuthMode::Private(_) => SessionResponse {
            id: req.id.clone(),
            username: req.id,
            password: req.password,
            expires_at: None,
        },
        AuthMode::Public(_) => {
            let expires_at = if now <= i128::MAX - SESSION_LIFETIME_NANOS {
                now + SESSION_LIFETIME_NANOS
            } else {
                i128::MAX
            };
            let session = DavSession {
                id: req.id.clone(),
                password: req.password.clone(),
                expires_at,
            };
            sessions.insert(session);
            SessionResponse {
                id: req.id.clone(),
                username: req.id,
                password: req.password,
                expires_at: Some(expires_at),
            }
        },
    }
}

/// Opens, now by the wall clock, the session that a request asks for, once it has been
/// admitted, and answers it.
pub fn open_session(auth: &AuthMode, sessions: &mut SessionStore, req: SessionRequest) -> (r:
    SessionResponse)
    ensures
        exists|now: i128| opens_session(*auth, old(sessions)@, final(sessions)@, req, r, now),
{
    let now = now_nanos();
    open_session_at(auth, sessions, req, now)
}

impl SessionStore {
    /// Closes every session that has expired by the wall clock and returns their ids.
    pub fn purge_expired(&mut self) -> (r: Vec<String>)
        ensures
            exists|now: i128|
                final(self)@ == live_at(old(self)@, now)
                    && texts(r@).to_set() == expired_at(old(self)@, now),
            texts(r@).no_duplicates(),
    {
        let now = now_nanos();
        self.purge_expired_at(now)
    }
}

/// Whether the storage directory entry called `name` survives the clearing at startup:
/// in public mode with a static account, the account's own directory does; nothing is
/// cleared in private mode.
pub open spec fn survives_startup(auth: AuthMode, name: Seq<char>) -> bool {
    match auth {
        AuthMode::Private(_) => true,
        AuthMode::Public(Some(a)) => a.user@ == name,
        AuthMode::Public(None) => false,
    }
}

/// Whether the storage directory entry called `name` is kept when the service starts.
pub fn keeps_entry_at_startup(auth: &AuthMode, name: &str) -> (r: bool)
    ensures
        r == survives_startup(*auth, name@),
{
    match auth {
        AuthMode::Private(_) => true,
        AuthMode::Public(Some(a)) => text_equal(a.user.as_str(), name),
        AuthMode::Public(None) => false,
    }
}

/// Public mode never holds more sessions than the limit: where the open sessions are
/// within the limit, opening the session of an admitted request keeps them within it.
pub proof fn law_session_limit_holds(
    fallback: Option<PrivateAuth>,
    sessions: Map<Seq<char>, (Seq<char>, i128)>,
    id: Seq<char>,
    password: Seq<char>,
    expires_at: i128,
)
    requires
        sessions.dom().finite(),
        sessions.len() <= SESSION_LIMIT,
        session_request_refusal(AuthMode::Public(fallback), sessions, id, password) is None,
    ensures
        sessions.insert(id, (password, expires_at)).len() <= SESSION_LIMIT,
{
    if sessions.contains_key(id) {
        assert(sessions.insert(id, (password, expires_at)).dom() =~= sessions.dom());
    }
}

/// In public mode anyone may open a session under a free 16-digit id, with a password of
/// their choosing, while the limit leaves room; only the static account's user name is
/// reserved to its password.
pub proof fn law_free_ids_can_be_claimed(
    fallback: Option<PrivateAuth>,
    sessions: Map<Seq<char>, (Seq<char>, i128)>,
    id: Seq<char>,
    password: Seq<char>,
)
    requires
        is_user_id(id),
        !sessions.contains_key(id),
        sessions.len() < SESSION_LIMIT,
        fallback matches Some(a) ==> a.user@ != id,
    ensures
        session_request_refusal(AuthMode::Public(fallback), sessions, id, password) is None,
{
}

/// Public mode opens sessions only under 16-digit ids.
pub proof fn law_public_sessions_have_user_ids(
    fallback: Option<PrivateAuth>,
    sessions: Map<Seq<char>, (Seq<char>, i128)>,
    id: Seq<char>,
    password: Seq<char>,
)
    requires
        session_request_refusal(AuthMode::Public(fallback), sessions, id, password) is None,
    ensures
        is_user_id(id),
{
}

/// A session that has just been opened admits its id and password until it expires, and
/// admits no other password for that id.
pub proof fn law_open_session_admits_until_expiry(
    fallback: Option<PrivateAuth>,
    sessions: Map<Seq<char>, (Seq<char>, i128)>,
    id: Seq<char>,
    password: Seq<char>,
    other: Seq<char>,
    expires_at: i128,
    now: i128,
)
    ensures
        accepts(
            AuthMode::Public(fallback),
            sessions.insert(id, (password, expires_at)),
            id,
            password,
            now,
        ) == (now < expires_at),
        other != password ==> !accepts(
            AuthMode::Public(fallback),
            sessions.insert(id, (password, expires_at)),
            id,
            other,
            now,
        ),
{
}

/// While a session is open under an id, nobody can reach the store or open a session
/// under that id with another password.
pub proof fn law_open_id_needs_its_password(
    fallback: Option<PrivateAuth>,
    sessions: Map<Seq<char>, (Seq<char>, i128)>,
    id: Seq<char>,
    password: Seq<char>,
    now: i128,
)
    requires
        sessions.contains_key(id),
        sessions[id].0 != password,
    ensures
        !accepts(AuthMode::Public(fallback), sessions, id, password, now),
        session_request_refusal(AuthMode::Public(fallback), sessions, id, password) is Some,
        is_user_id(id) ==> session_request_refusal(
            AuthMode::Public(fallback),
            sessions,
            id,
            password,
        ) == Some((STATUS_UNAUTHORIZED, "password doesn't match active session"@)),
{
}

/// In private mode the static account reaches the store at any time, whatever sessions
/// exist, and its requests to open a session are admitted; nobody else is admitted.
pub proof fn law_private_account_always_admitted(
    account: PrivateAuth,
    sessions: Map<Seq<char>, (Seq<char>, i128)>,
    user: Seq<char>,
    password: Seq<char>,
    now: i128,
)
    ensures
        accepts(AuthMode::Private(account), sessions, account.user@, account.password@, now),
        session_request_refusal(
            AuthMode::Private(account),
            sessions,
            account.user@,
            account.password@,
        ) is None,
        accepts(AuthMode::Private(account), sessions, user, password, now) == is_account(
            account,
            user,
            password,
        ),
{
}

/// Closing the sessions that expired by `now` leaves none that expired by then, and
/// changes nobody's admission at `now` or later, except that of the static account's
/// user name, which an expired session of that id no longer shadows.
pub proof fn law_purge_keeps_admissions(
    auth: AuthMode,
    sessions: Map<Seq<char>, (Seq<char>, i128)>,
    now: i128,
    later: i128,
    user: Seq<char>,
    password: Seq<char>,
)
    requires
        now <= later,
        auth matches AuthMode::Public(Some(a)) ==> a.user@ != user,
    ensures
        forall|id: Seq<char>| #[trigger]
            live_at(sessions, now).contains_key(id) ==> live_at(sessions, now)[id].1 > now,
        accepts(auth, live_at(sessions, now), user, password, later) == accepts(
            auth,
            sessions,
            user,
            password,
            later,
        ),
{
}

/// In public mode, a user with an open session is admitted exactly with that session's
/// password and only before its expiry time; a user without an open session is admitted
/// exactly when they give the static account's user name and password.
pub proof fn law_public_admission(
    account: Option<PrivateAuth>,
    sessions: Map<Seq<char>, (Seq<char>, i128)>,
    user: Seq<char>,
    password: Seq<char>,
    now: i128,
)
    ensures
        sessions.contains_key(user) ==> (accepts(
            AuthMode::Public(account),
            sessions,
            user,
            password,
            now,
        ) <==> (password == sessions[user].0 && now < sessions[user].1)),
        !sessions.contains_key(user) ==> (accepts(
            AuthMode::Public(account),
            sessions,
            user,
            password,
            now,
        ) <==> (account is Some && account->0.user@ == user && account->0.password@
            == password)),
{
}

/// In public mode, a request to open a session under a 16-digit id whose session is open
/// with the same password is admitted, whether or not that session has expired: the
/// owner may start it again.
pub proof fn law_open_id_reopened_with_its_password(
    account: Option<PrivateAuth>,
    sessions: Map<Seq<char>, (Seq<char>, i128)>,
    id: Seq<char>,
    password: Seq<char>,
)
    requires
        is_user_id(id),
        sessions.contains_key(id),
        sessions[id].0 == password,
    ensures
        session_request_refusal(AuthMode::Public(account), sessions, id, password) is None,
{
}

} // verus!
