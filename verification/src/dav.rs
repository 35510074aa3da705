//! The WebDAV entrance: which requests reach the store, and where inside the store an
//! admitted request lands.

use vstd::prelude::*;
use axum::http::Uri;
use crate::basic_auth::{basic_credentials, is_header_text, is_header_text_bytes, parse_basic_auth};
use crate::clock::now_nanos;
use crate::session::{accepts, validate_session_at, AuthMode, SessionStore};
use crate::text::{
    char_vec, decimal, push_char, push_chars_from, push_decimal, push_text, text_equal,
};
use crate::{
    DB_FILE_NAME, MAX_DB_SIZE, STATUS_BAD_REQUEST, STATUS_FORBIDDEN, STATUS_LENGTH_REQUIRED,
    STATUS_METHOD_NOT_ALLOWED, STATUS_PAYLOAD_TOO_LARGE, STATUS_UNAUTHORIZED,
};
use vstd::utf8::decode_utf8;

verus! {

/// `http::Uri`, which the library hands on to the store without looking inside it.
#[verifier::external_type_specification]
#[verifier::external_body]
pub struct ExUri(Uri);

/// The path of the store's root collection.
pub open spec fn dav_root_path() -> Seq<char> {
    "/dav/"@
}

/// The path of the vocabulary database inside the store.
pub open spec fn db_file_path() -> Seq<char> {
    "/dav/"@ + DB_FILE_NAME@
}

/// The store serves its root collection and the vocabulary database, nothing else.
pub open spec fn is_dav_path(path: Seq<char>) -> bool {
    path == dav_root_path() || path == db_file_path()
}

/// The path of the vocabulary database inside the store.
fn db_file_path_string() -> (r: String)
    ensures
        r@ == db_file_path(),
{
    let mut r = String::new();
    push_text(&mut r, "/dav/");
    push_text(&mut r, DB_FILE_NAME);
    r
}

/// Whether the store serves `path`: its root collection or the vocabulary database.
pub fn is_allowed_dav_path(path: &str) -> (r: bool)
    ensures
        r == is_dav_path(path@),
{
    let db = db_file_path_string();
    text_equal(path, "/dav/") || text_equal(path, db.as_str())
}

/// The methods that a WebDAV client of the store needs: `OPTIONS`, `GET`, `HEAD`, `PUT`,
/// `PROPFIND`, `LOCK` and `UNLOCK`.
pub open spec fn is_dav_method(method: Seq<char>) -> bool {
    ||| method == "OPTIONS"@
    ||| method == "GET"@
    ||| method == "HEAD"@
    ||| method == "PUT"@
    ||| method == "PROPFIND"@
    ||| method == "LOCK"@
    ||| method == "UNLOCK"@
}

/// Whether the store accepts a request with the method named `method`.
pub fn is_allowed_method(method: &str) -> (r: bool)
    ensures
        r == is_dav_method(method@),
{
    text_equal(method, "OPTIONS") || text_equal(method, "GET") || text_equal(method, "HEAD")
        || text_equal(method, "PUT") || text_equal(method, "PROPFIND") || text_equal(
        method,
        "LOCK",
    ) || text_equal(method, "UNLOCK")
}

/// Whether every byte of `d` is an ASCII decimal digit.
pub open spec fn all_digits(d: Seq<u8>) -> bool {
    forall|i: int| 0 <= i < d.len() ==> 0x30 <= #[trigger] d[i] <= 0x39
}

/// The number that the decimal digits `d` write.
pub open spec fn decimal_value(d: Seq<u8>) -> nat
    decreases d.len(),
{
    if d.len() == 0 {
        0
    } else {
        decimal_value(d.drop_last()) * 10 + (d.last() - 0x30) as nat
    }
}

/// What `u64::from_str` reads from the text `t`: an optional `+` followed by at least
/// one decimal digit and nothing else, whose value fits in a `u64`.
pub open spec fn parse_u64(t: Seq<u8>) -> Option<u64> {
    let digits = if t.len() > 0 && t[0] == 0x2b {
        t.skip(1)
    } else {
        t
    };
    if digits.len() > 0 && all_digits(digits) && decimal_value(digits) <= u64::MAX {
        Some(decimal_value(digits) as u64)
    } else {
        None
    }
}

/// The length that a `Content-Length` header value announces: the value must be text
/// and a decimal number that fits in a `u64`.
pub open spec fn announced_length(value: Option<Seq<u8>>) -> Option<u64> {
    match value {
        Some(v) => if is_header_text(v) {
            parse_u64(v)
        } else {
            None
        },
        None => None,
    }
}

/// The value of a prefix of digits is at most that of the whole.
proof fn lemma_decimal_value_prefix(d: Seq<u8>, k: int)
    requires
        0 <= k <= d.len(),
    ensures
        decimal_value(d.take(k)) <= decimal_value(d),
    decreases d.len(),
{
    if k < d.len() {
        assert(d.drop_last().take(k) =~= d.take(k));
        lemma_decimal_value_prefix(d.drop_last(), k);
    } else {
        assert(d.take(k) =~= d);
    }
}

/// Reads the decimal number of a header value (`u64::from_str`).
fn parse_decimal_u64(t: &[u8]) -> (r: Option<u64>)
    ensures
        r == parse_u64(t@),
{
    let start: usize = if t.len() > 0 && t[0] == 0x2b {
        1
    } else {
        0
    };
    let ghost digits = t@.skip(start as int);
    assert(digits == (if t@.len() > 0 && t@[0] == 0x2b {
        t@.skip(1)
    } else {
        t@
    })) by {
        if start == 0 {
            assert(t@.skip(0) =~= t@);
        }
    }
    if start == t.len() {
        return None;
    }
    let mut value: u64 = 0;
    let mut i: usize = start;
    while i < t.len()
        invariant
            start <= i <= t@.len(),
            digits == t@.skip(start as int),
            digits == (if t@.len() > 0 && t@[0] == 0x2b {
                t@.skip(1)
            } else {
                t@
            }),
            digits.len() > 0,
            all_digits(t@.subrange(start as int, i as int)),
            value == decimal_value(t@.subrange(start as int, i as int)),
        decreases t@.len() - i,
    {
        let b = t[i];
        let ghost prefix = t@.subrange(start as int, i as int);
        let ghost next = t@.subrange(start as int, i + 1);
        assert(next.drop_last() =~= prefix);
        assert(next.take(next.len() - 1) =~= prefix);
        if !(0x30 <= b && b <= 0x39) {
            assert(digits[i - start] == b);
            assert(!all_digits(digits));
            return None;
        }
        let grown = match value.checked_mul(10) {
            Some(v) => v.checked_add((b - 0x30) as u64),
            None => None,
        };
        match grown {
            Some(v) => {
                value = v;
            },
            None => {
                proof {
                    assert(next =~= digits.take(i + 1 - start));
                    lemma_decimal_value_prefix(digits, i + 1 - start);
                    assert(decimal_value(next) == value * 10 + (b - 0x30) as nat);
                    assert(decimal_value(next) > u64::MAX);
                }
                return None;
            },
        }
        i = i + 1;
    }
    assert(t@.subrange(start as int, t@.len() as int) =~= digits);
    Some(value)
}

/// The length that a request's `Content-Length` header announces (`None` where the
/// request has no such header).
pub fn content_length(value: Option<&[u8]>) -> (r: Option<u64>)
    ensures
        r == announced_length(
            match value {
                Some(v) => Some(v@),
                None => None,
            },
        ),
{
    match value {
        Some(v) => if is_header_text_bytes(v) {
            parse_decimal_u64(v)
        } else {
            None
        },
        None => None,
    }
}

/// The path inside the store that `path` of the WebDAV namespace lands on, for user
/// `user`: the part after `/dav` moves under `/<user>`, with a `/` between the two where
/// the part does not start with one. Paths outside `/dav` land nowhere.
pub open spec fn user_path(path: Seq<char>, user: Seq<char>) -> Option<Seq<char>> {
    let prefix = seq!['/', 'd', 'a', 'v'];
    if prefix.len() <= path.len() && path.take(prefix.len() as int) == prefix {
        let suffix = path.skip(prefix.len() as int);
        Some(
            if suffix.len() == 0 {
                seq!['/'] + user + seq!['/']
            } else if suffix[0] == '/' {
                seq!['/'] + user + suffix
            } else {
                seq!['/'] + user + seq!['/'] + suffix
            },
        )
    } else {
        None
    }
}

/// The request target that a request for `path` (with the query `query`, if any) is
/// passed on with, for user `user`.
pub open spec fn user_target(path: Seq<char>, query: Option<Seq<char>>, user: Seq<char>) -> Option<
    Seq<char>,
> {
    match user_path(path, user) {
        Some(p) => match query {
            Some(q) => Some(p + seq!['?'] + q),
            None => Some(p),
        },
        None => None,
    }
}

/// The request target that a request for `path` and `query` is passed on with, inside
/// the directory of `username`; refused with `invalid dav path` where `path` is outside
/// `/dav`.
pub fn rewrite_dav_target(path: &str, query: Option<&str>, username: &str) -> (r: Result<
    String,
    String,
>)
    ensures
        match user_target(path@, opt_view(query), username@) {
            Some(t) => r matches Ok(s) && s@ == t,
            None => r matches Err(m) && m@ == "invalid dav path"@,
        },
{
    let chars = char_vec(path);
    let n = chars.len();
    if !(n >= 4 && chars[0] == '/' && chars[1] == 'd' && chars[2] == 'a' && chars[3] == 'v') {
        proof {
            if 4 <= path@.len() {
                let prefix = seq!['/', 'd', 'a', 'v'];
                if path@.take(4) == prefix {
                    assert(path@[0] == path@.take(4)[0]);
                    assert(path@[1] == path@.take(4)[1]);
                    assert(path@[2] == path@.take(4)[2]);
                    assert(path@[3] == path@.take(4)[3]);
                }
            }
        }
        return Err("invalid dav path".to_owned());
    }
    assert(path@.take(4) =~= seq!['/', 'd', 'a', 'v']);
    let mut out = String::new();
    push_char(&mut out, '/');
    push_text(&mut out, username);
    if n == 4 {
        push_char(&mut out, '/');
        assert(path@.skip(4).len() == 0);
    } else if chars[4] == '/' {
        push_chars_from(&mut out, &chars, 4);
        assert(path@.skip(4)[0] == '/');
    } else {
        push_char(&mut out, '/');
        push_chars_from(&mut out, &chars, 4);
    }
    match query {
        Some(q) => {
            push_char(&mut out, '?');
            push_text(&mut out, q);
        },
        None => {},
    }
    assert(out@ =~= user_target(path@, opt_view(query), username@).unwrap());
    Ok(out)
}

/// The characters of an optional string.
pub open spec fn opt_view(s: Option<&str>) -> Option<Seq<char>> {
    match s {
        Some(t) => Some(t@),
        None => None,
    }
}

/// What `http::Uri::from_str` makes of the text `target`: the URI it reads, or the
/// message (`to_string` of the `InvalidUri` error) with which it refuses the text.
pub uninterp spec fn parsed_uri(target: Seq<char>) -> Result<Uri, Seq<char>>;

/// `<http::Uri as FromStr>::from_str`, with a refusal turned into its message
/// (`to_string` of the `InvalidUri` error). The URI, or the message, depends on the text
/// alone and is named by `parsed_uri`.
#[verifier::external_body]
fn parse_uri(target: &str) -> (r: Result<Uri, String>)
    ensures
        match r {
            Ok(u) => parsed_uri(target@) == Ok::<Uri, Seq<char>>(u),
            Err(m) => parsed_uri(target@) == Err::<Uri, Seq<char>>(m@),
        },
{
    match target.parse::<Uri>() {
        Ok(uri) => Ok(uri),
        Err(e) => Err(e.to_string()),
    }
}

/// The URI with which a request for `path` and `query` is passed on, inside the
/// directory of `username`.
pub fn rewrite_dav_uri(path: &str, query: Option<&str>, username: &str) -> (r: Result<Uri, String>)
    ensures
        match user_target(path@, opt_view(query), username@) {
            Some(t) => match parsed_uri(t) {
                Ok(u) => r == Ok::<Uri, String>(u),
                Err(msg) => r matches Err(m) && m@ == msg,
            },
            None => r matches Err(m) && m@ == "invalid dav path"@,
        },
{
    let target = rewrite_dav_target(path, query, username)?;
    parse_uri(target.as_str())
}

/// The value of the `WWW-Authenticate` header with which a refusal asks for Basic
/// credentials.
pub open spec fn basic_challenge() -> Seq<char> {
    "Basic realm=\"webdav\""@
}

/// A refused WebDAV request: the HTTP status, the body, and the `WWW-Authenticate`
/// challenge, where the refusal asks for credentials.
#[derive(Debug)]
pub struct DavRefusal {
    pub status: u16,
    pub body: String,
    pub challenge: Option<String>,
}

/// The refusal of a request that lacks valid credentials.
pub fn unauthorized() -> (r: DavRefusal)
    ensures
        r.status == STATUS_UNAUTHORIZED,
        r.body@ == "Unauthorized"@,
        r.challenge matches Some(c) && c@ == basic_challenge(),
{
    DavRefusal {
        status: STATUS_UNAUTHORIZED,
        body: "Unauthorized".to_owned(),
        challenge: Some("Basic realm=\"webdav\"".to_owned()),
    }
}

fn refuse(status: u16, body: String) -> (r: DavRefusal)
    ensures
        r.status == status,
        r.body == body,
        r.challenge is None,
{
    DavRefusal { status, body, challenge: None }
}

/// A WebDAV request as the entrance reads it: the raw values of its `Authorization` and
/// `Content-Length` headers, where present, its method, and the path and query of its
/// URI.
pub struct DavRequest<'a> {
    pub authorization: Option<&'a [u8]>,
    pub content_length: Option<&'a [u8]>,
    pub method: &'a str,
    pub path: &'a str,
    pub query: Option<&'a str>,
}

/// A request that the entrance lets through: the user it comes from, the request target
/// inside the user's directory, and whether it uploads the database.
#[derive(Debug)]
pub struct DavPass {
    pub username: String,
    pub target: String,
    pub is_upload: bool,
}

/// The raw bytes of an optional header value.
pub open spec fn bytes_view(v: Option<&[u8]>) -> Option<Seq<u8>> {
    match v {
        Some(b) => Some(b@),
        None => None,
    }
}

/// How the entrance answers a request at time `now`: `Ok` with the user, the target and
/// whether it is an upload, or `Err` with the status, the body and whether the answer
/// asks for credentials. In order: the request must carry Basic credentials that
/// `accepts` admits; its method must be one that the store knows; its path must be the
/// root collection or the database; an upload (`PUT`) must announce its length, at most
/// `MAX_DB_SIZE` bytes, and go to the database; the path must lie under `/dav`.
pub open spec fn dav_verdict(
    auth: AuthMode,
    sessions: Map<Seq<char>, (Seq<char>, i128)>,
    now: i128,
    authorization: Option<Seq<u8>>,
    content_length: Option<Seq<u8>>,
    method: Seq<char>,
    path: Seq<char>,
    query: Option<Seq<char>>,
) -> Result<(Seq<char>, Seq<char>, bool), (u16, Seq<char>, bool)> {
    let credentials = match authorization {
        Some(v) => basic_credentials(v),
        None => None,
    };
    let is_upload = method == "PUT"@;
    match credentials {
        None => Err((STATUS_UNAUTHORIZED, "Unauthorized"@, true)),
        Some((user_bytes, password_bytes)) => {
            let user = decode_utf8(user_bytes);
            let password = decode_utf8(password_bytes);
            if !accepts(auth, sessions, user, password, now) {
                Err((STATUS_UNAUTHORIZED, "Unauthorized"@, true))
            } else if !is_dav_method(method) {
                Err((STATUS_METHOD_NOT_ALLOWED, "method not allowed"@, false))
            } else if !is_dav_path(path) {
                Err((STATUS_FORBIDDEN, "only "@ + DB_FILE_NAME@ + " is allowed"@, false))
            } else if is_upload && announced_length(content_length) is None {
                Err((STATUS_LENGTH_REQUIRED, "Content-Length required for uploads"@, false))
            } else if is_upload && announced_length(content_length).unwrap() > MAX_DB_SIZE {
                Err(
                    (
                        STATUS_PAYLOAD_TOO_LARGE,
                        "file too large; max "@ + decimal(MAX_DB_SIZE as nat) + " bytes"@,
                        false,
                    ),
                )
            } else if is_upload && path != db_file_path() {
                Err((STATUS_FORBIDDEN, "uploads are only allowed to "@ + DB_FILE_NAME@, false))
            } else {
                match user_target(path, query, user) {
                    Some(target) => Ok((user, target, is_upload)),
                    None => Err((STATUS_BAD_REQUEST, "invalid dav path"@, false)),
                }
            }
        },
    }
}

/// Whether an entrance's answer is the one that `dav_verdict` gives.
pub open spec fn answers(
    r: Result<DavPass, DavRefusal>,
    verdict: Result<(Seq<char>, Seq<char>, bool), (u16, Seq<char>, bool)>,
) -> bool {
    match verdict {
        Ok((user, target, is_upload)) => r matches Ok(p) && p.username@ == user && p.target@
            == target && p.is_upload == is_upload,
        Err((status, body, asks)) => r matches Err(e) && e.status == status && e.body@ == body
            && (e.challenge is Some) == asks && (asks ==> e.challenge.unwrap()@
            == basic_challenge()),
    }
}

/// Decides at time `now` whether a WebDAV request reaches the store, and with which
/// target.
pub fn check_dav_request_at(
    auth: &AuthMode,
    sessions: &SessionStore,
    now: i128,
    req: &DavRequest,
) -> (r: Result<DavPass, DavRefusal>)
    ensures
        answers(
            r,
            dav_verdict(
                *auth,
                sessions@,
                now,
                bytes_view(req.authorization),
                bytes_view(req.content_length),
                req.method@,
                req.path@,
                opt_view(req.query),
            ),
        ),
{
    let (username, password) = match parse_basic_auth(req.authorization) {
        Some(c) => c,
        None => return Err(unauthorized()),
    };
    if !validate_session_at(auth, sessions, username.as_str(), password.as_str(), now) {
        return Err(unauthorized());
    }
    if !is_allowed_method(req.method) {
        return Err(refuse(STATUS_METHOD_NOT_ALLOWED, "method not allowed".to_owned()));
    }
    if !is_allowed_dav_path(req.path) {
        let mut body = String::new();
        push_text(&mut body, "only ");
        push_text(&mut body, DB_FILE_NAME);
        push_text(&mut body, " is allowed");
        return Err(refuse(STATUS_FORBIDDEN, body));
    }
    let is_upload = text_equal(req.method, "PUT");
    if is_upload {
        let length = match content_length(req.content_length) {
            Some(n) => n,
            None => {
                return Err(
                    refuse(STATUS_LENGTH_REQUIRED, "Content-Length required for uploads".to_owned()),
                );
            },
        };
        if length > MAX_DB_SIZE {
            let mut body = String::new();
            push_text(&mut body, "file too large; max ");
            push_decimal(&mut body, MAX_DB_SIZE);
            push_text(&mut body, " bytes");
            return Err(refuse(STATUS_PAYLOAD_TOO_LARGE, body));
        }
        let db = db_file_path_string();
        if !text_equal(req.path, db.as_str()) {
            let mut body = String::new();
            push_text(&mut body, "uploads are only allowed to ");
            push_text(&mut body, DB_FILE_NAME);
            return Err(refuse(STATUS_FORBIDDEN, body));
        }
    }
    match rewrite_dav_target(req.path, req.query, username.as_str()) {
        Ok(target) => Ok(DavPass { username, target, is_upload }),
        Err(msg) => Err(refuse(STATUS_BAD_REQUEST, msg)),
    }
}

/// What the entrance does with a WebDAV request: refuse it, or pass it on to the store under
/// `uri`, inside the directory of `username`.
#[derive(Debug)]
pub enum DavDecision {
    Refuse(DavRefusal),
    Forward { username: String, uri: Uri, is_upload: bool },
}

/// Whether a decision is the one that `dav_verdict` gives, once the target has been read
/// as a URI (`parsed_uri`): a target that reads is forwarded under the URI read from it,
/// and one that does not read is refused with `400` and the parser's message.
pub open spec fn decides(
    r: DavDecision,
    verdict: Result<(Seq<char>, Seq<char>, bool), (u16, Seq<char>, bool)>,
) -> bool {
    match verdict {
        Ok((user, target, is_upload)) => match parsed_uri(target) {
            Ok(u) => r matches DavDecision::Forward { username, uri, is_upload: up } && username@
                == user && uri == u && up == is_upload,
            Err(msg) => r matches DavDecision::Refuse(e) && e.status == STATUS_BAD_REQUEST
                && e.body@ == msg && e.challenge is None,
        },
        Err((status, body, asks)) => r matches DavDecision::Refuse(e) && e.status == status
            && e.body@ == body && (e.challenge is Some) == asks && (asks ==> e.challenge.unwrap()@
            == basic_challenge()),
    }
}

/// Decides whether a WebDAV request reaches the store now, by the wall clock, and under
/// which URI.
pub fn handle_dav_request(auth: &AuthMode, sessions: &SessionStore, req: &DavRequest) -> (r:
    DavDecision)
    ensures
        exists|now: i128|
            decides(
                r,
                dav_verdict(
                    *auth,
                    sessions@,
                    now,
                    bytes_view(req.authorization),
                    bytes_view(req.content_length),
                    req.method@,
                    req.path@,
                    opt_view(req.query),
                ),
            ),
{
    let now = now_nanos();
    match check_dav_request_at(auth, sessions, now, req) {
        Err(e) => DavDecision::Refuse(e),
        Ok(pass) => match parse_uri(pass.target.as_str()) {
            Ok(uri) => DavDecision::Forward {
                username: pass.username,
                uri,
                is_upload: pass.is_upload,
            },
            Err(msg) => DavDecision::Refuse(refuse(STATUS_BAD_REQUEST, msg)),
        },
    }
}

/// A status of the `2xx` class, which reports success.
pub open spec fn is_success(status: u16) -> bool {
    200 <= status <= 299
}

/// Whether the store's answer to a passed request announces a new database: the request
/// was an upload and the store reported success.
pub fn announces_upload(is_upload: bool, status: u16) -> (r: bool)
    ensures
        r == (is_upload && is_success(status)),
{
    is_upload && 200 <= status && status <= 299
}

/// A request that the entrance lets through carries credentials that are admitted at the
/// time of the request, names the root collection or the database, lands inside the
/// directory of its user (its target starts with `/` and the user name), and, where it is
/// an upload, goes to the database and announces at most `MAX_DB_SIZE` bytes.
pub proof fn law_entrance_confines_requests(
    auth: AuthMode,
    sessions: Map<Seq<char>, (Seq<char>, i128)>,
    now: i128,
    authorization: Option<Seq<u8>>,
    content_length: Option<Seq<u8>>,
    method: Seq<char>,
    path: Seq<char>,
    query: Option<Seq<char>>,
)
    requires
        dav_verdict(auth, sessions, now, authorization, content_length, method, path, query) is Ok,
    ensures
        ({
            let (user, target, is_upload) = dav_verdict(
                auth,
                sessions,
                now,
                authorization,
                content_length,
                method,
                path,
                query,
            )->Ok_0;
            &&& authorization matches Some(v) && basic_credentials(v) matches Some((u, p))
                && decode_utf8(u) == user && accepts(auth, sessions, user, decode_utf8(p), now)
            &&& is_dav_method(method)
            &&& is_dav_path(path)
            &&& target.len() > user.len() && target.take(user.len() + 1int) == seq!['/'] + user
            &&& is_upload ==> (path == db_file_path() && (announced_length(content_length) matches Some(
                n,
            ) && n <= MAX_DB_SIZE))
        }),
{
    let (user, target, is_upload) = dav_verdict(
        auth,
        sessions,
        now,
        authorization,
        content_length,
        method,
        path,
        query,
    )->Ok_0;
    let p = user_path(path, user).unwrap();
    assert(p.take(user.len() + 1int) =~= seq!['/'] + user);
    if query is Some {
        assert(target.take(user.len() + 1int) =~= p.take(user.len() + 1int));
    }
}

/// Requests that do not carry admitted credentials never reach the store; they are
/// answered `401` with a Basic challenge.
pub proof fn law_entrance_refuses_strangers(
    auth: AuthMode,
    sessions: Map<Seq<char>, (Seq<char>, i128)>,
    now: i128,
    authorization: Option<Seq<u8>>,
    content_length: Option<Seq<u8>>,
    method: Seq<char>,
    path: Seq<char>,
    query: Option<Seq<char>>,
)
    requires
        !(authorization matches Some(v) && basic_credentials(v) matches Some((u, p)) && accepts(
            auth,
            sessions,
            decode_utf8(u),
            decode_utf8(p),
            now,
        )),
    ensures
        dav_verdict(auth, sessions, now, authorization, content_length, method, path, query)
            == Err::<(Seq<char>, Seq<char>, bool), (u16, Seq<char>, bool)>(
            (STATUS_UNAUTHORIZED, "Unauthorized"@, true),
        ),
{
}

/// A request that the entrance forwards reaches the store under the URI read from its
/// target, and that target lies inside the directory of the user whose admitted
/// credentials the request carries: the store is never asked for anything but a path
/// under `/<user>`.
pub proof fn law_forwarded_uri_is_the_users(
    r: DavDecision,
    auth: AuthMode,
    sessions: Map<Seq<char>, (Seq<char>, i128)>,
    now: i128,
    authorization: Option<Seq<u8>>,
    content_length: Option<Seq<u8>>,
    method: Seq<char>,
    path: Seq<char>,
    query: Option<Seq<char>>,
)
    requires
        decides(
            r,
            dav_verdict(auth, sessions, now, authorization, content_length, method, path, query),
        ),
        r is Forward,
    ensures
        dav_verdict(auth, sessions, now, authorization, content_length, method, path, query) is Ok,
        ({
            let (user, target, is_upload) = dav_verdict(
                auth,
                sessions,
                now,
                authorization,
                content_length,
                method,
                path,
                query,
            )->Ok_0;
            &&& parsed_uri(target) == Ok::<Uri, Seq<char>>(r->uri)
            &&& r->username@ == user
            &&& r->Forward_is_upload == is_upload
            &&& target.len() > user.len() && target.take(user.len() + 1int) == seq!['/'] + user
            &&& authorization matches Some(v) && basic_credentials(v) matches Some((u, p))
                && decode_utf8(u) == user && accepts(auth, sessions, user, decode_utf8(p), now)
        }),
{
    law_entrance_confines_requests(
        auth,
        sessions,
        now,
        authorization,
        content_length,
        method,
        path,
        query,
    );
}

/// The target with the request's query, if any, appended after a `?`.
pub open spec fn with_query(target: Seq<char>, query: Option<Seq<char>>) -> Seq<char> {
    match query {
        Some(q) => target + seq!['?'] + q,
        None => target,
    }
}

/// Every path under `/dav` lands inside the user's own directory: the target is `/`, the
/// user name, `/`, and then the rest of the path after `/dav` with its leading `/`, if
/// any, dropped and nothing else changed, whatever the user name; the query follows
/// after a `?`. Paths that do not start with `/dav` land nowhere.
pub proof fn law_target_in_user_directory(
    path: Seq<char>,
    query: Option<Seq<char>>,
    user: Seq<char>,
)
    ensures
        path.len() >= 4 && path.take(4) == seq!['/', 'd', 'a', 'v'] ==> user_target(
            path,
            query,
            user,
        ) == Some(
            with_query(
                seq!['/'] + user + seq!['/'] + (if path.len() > 4 && path[4] == '/' {
                    path.skip(5)
                } else {
                    path.skip(4)
                }),
                query,
            ),
        ),
        !(path.len() >= 4 && path.take(4) == seq!['/', 'd', 'a', 'v']) ==> user_target(
            path,
            query,
            user,
        ) is None,
{
    if path.len() >= 4 && path.take(4) == seq!['/', 'd', 'a', 'v'] {
        let suffix = path.skip(4);
        if suffix.len() > 0 && suffix[0] == '/' {
            assert(suffix =~= seq!['/'] + path.skip(5));
        }
        let p = user_path(path, user).unwrap();
        assert(p =~= seq!['/'] + user + seq!['/'] + (if path.len() > 4 && path[4] == '/' {
            path.skip(5)
        } else {
            path.skip(4)
        }));
    }
}

/// Credentials that `accepts` admits open the store for reading: a request that carries
/// them, with a method that the store knows other than `PUT` and a path that it serves,
/// is passed on for their user, to `/<user>/` followed by the rest of the path after
/// `/dav/`, as no upload.
pub proof fn law_entrance_admits_accepted_reads(
    auth: AuthMode,
    sessions: Map<Seq<char>, (Seq<char>, i128)>,
    now: i128,
    header: Seq<u8>,
    user: Seq<u8>,
    password: Seq<u8>,
    content_length: Option<Seq<u8>>,
    method: Seq<char>,
    path: Seq<char>,
    query: Option<Seq<char>>,
)
    requires
        basic_credentials(header) == Some((user, password)),
        accepts(auth, sessions, decode_utf8(user), decode_utf8(password), now),
        is_dav_method(method),
        method != "PUT"@,
        is_dav_path(path),
    ensures
        dav_verdict(auth, sessions, now, Some(header), content_length, method, path, query)
            == Ok::<(Seq<char>, Seq<char>, bool), (u16, Seq<char>, bool)>(
            (
                decode_utf8(user),
                with_query(seq!['/'] + decode_utf8(user) + seq!['/'] + path.skip(5), query),
                false,
            ),
        ),
{
    lemma_dav_path_shape(path);
    law_target_in_user_directory(path, query, decode_utf8(user));
}

/// Credentials that `accepts` admits open the database for upload: a `PUT` of the
/// database that carries them and announces at most `MAX_DB_SIZE` bytes is passed on for
/// their user, to the database inside their directory, as an upload.
pub proof fn law_entrance_admits_accepted_uploads(
    auth: AuthMode,
    sessions: Map<Seq<char>, (Seq<char>, i128)>,
    now: i128,
    header: Seq<u8>,
    user: Seq<u8>,
    password: Seq<u8>,
    content_length: Option<Seq<u8>>,
    length: u64,
    query: Option<Seq<char>>,
)
    requires
        basic_credentials(header) == Some((user, password)),
        accepts(auth, sessions, decode_utf8(user), decode_utf8(password), now),
        announced_length(content_length) == Some(length),
        length <= MAX_DB_SIZE,
    ensures
        dav_verdict(
            auth,
            sessions,
            now,
            Some(header),
            content_length,
            "PUT"@,
            db_file_path(),
            query,
        ) == Ok::<(Seq<char>, Seq<char>, bool), (u16, Seq<char>, bool)>(
            (
                decode_utf8(user),
                with_query(seq!['/'] + decode_utf8(user) + seq!['/'] + DB_FILE_NAME@, query),
                true,
            ),
        ),
{
    reveal_strlit("PUT");
    reveal_strlit("OPTIONS");
    reveal_strlit("GET");
    reveal_strlit("HEAD");
    assert(is_dav_method("PUT"@));
    assert(is_dav_path(db_file_path()));
    lemma_dav_path_shape(db_file_path());
    assert(db_file_path().skip(5) =~= DB_FILE_NAME@);
    law_target_in_user_directory(db_file_path(), query, decode_utf8(user));
}

/// The paths that the store serves begin with `/dav/`.
proof fn lemma_dav_path_shape(path: Seq<char>)
    requires
        is_dav_path(path),
    ensures
        path.len() >= 5,
        path.take(4) == seq!['/', 'd', 'a', 'v'],
        path[4] == '/',
        path.take(5) == "/dav/"@,
{
    reveal_strlit("/dav/");
    assert("/dav/"@ =~= seq!['/', 'd', 'a', 'v', '/']);
    assert(path.take(5) =~= "/dav/"@) by {
        if path == db_file_path() {
            assert(("/dav/"@ + DB_FILE_NAME@).take(5) =~= "/dav/"@);
        } else {
            assert(path.take(5) =~= path);
        }
    }
    assert(path.take(4) =~= path.take(5).take(4));
    assert(path[4] == path.take(5)[4]);
}

} // verus!
