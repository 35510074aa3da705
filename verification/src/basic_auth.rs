//! HTTP Basic credentials: reading the `Authorization` header of a request.

use vstd::prelude::*;
use vstd::utf8::{
    encode_scalar, encode_utf8, encode_utf8_decode_utf8, has_width_1_encoding,
    leading_byte_width_1, encode_utf8_valid_utf8, decode_first_scalar, decode_utf8, decode_utf8_split, is_char_boundary,
    is_char_boundary_iff_not_is_continuation_byte, is_continuation_byte,
    is_leading_byte_width_1, is_leading_byte_width_2, is_leading_byte_width_3,
    length_of_first_scalar, pop_first_scalar, valid_utf8,
    valid_utf8_split,
};
use crate::text::string_from_utf8;
use base64::Engine;
use vstd::string::StringSliceAdditionalSpecFns;

verus! {

/// The byte of `:`, which separates the user name from the password.
pub const COLON: u8 = 0x3a;

/// A byte that a header value may hold for it to be read as text: a visible ASCII
/// character, a space or a tab.
pub open spec fn is_visible_ascii(b: u8) -> bool {
    (32 <= b && b < 127) || b == 9
}

/// A header value that can be read as text: every byte is visible ASCII.
pub open spec fn is_header_text(v: Seq<u8>) -> bool {
    forall|i: int| 0 <= i < v.len() ==> is_visible_ascii(#[trigger] v[i])
}

/// The index of the first occurrence of `b` in `s`, if it occurs.
pub open spec fn first_index_of(s: Seq<u8>, b: u8) -> Option<int>
    decreases s.len(),
{
    if s.len() == 0 {
        None
    } else if s[0] == b {
        Some(0)
    } else {
        match first_index_of(s.drop_first(), b) {
            Some(i) => Some(i + 1),
            None => None,
        }
    }
}

/// The bytes of the scheme word with which Basic credentials begin, `Basic ` with its
/// trailing space.
pub open spec fn basic_scheme() -> Seq<u8> {
    "Basic ".spec_bytes()
}

/// What the standard base64 engine (standard alphabet, padding required) decodes
/// `input` to, or `None` where it refuses `input`.
pub uninterp spec fn base64_standard_decode(input: Seq<u8>) -> Option<Seq<u8>>;

/// The payload that a Basic `Authorization` header value carries: the header is text,
/// starts with `Basic `, and the rest decodes as standard base64.
pub open spec fn basic_payload(header: Seq<u8>) -> Option<Seq<u8>> {
    let scheme = basic_scheme();
    if is_header_text(header) && scheme.len() <= header.len() && header.take(
        scheme.len() as int,
    ) == scheme {
        base64_standard_decode(header.skip(scheme.len() as int))
    } else {
        None
    }
}

/// The user name and the password, as UTF-8 bytes, that a Basic `Authorization` header
/// value carries: the payload must be UTF-8 and hold a `:`; the name is what precedes
/// the first `:`, the password what follows it.
pub open spec fn basic_credentials(header: Seq<u8>) -> Option<(Seq<u8>, Seq<u8>)> {
    match basic_payload(header) {
        Some(payload) => payload_credentials(payload),
        None => None,
    }
}

/// The user name and the password, as UTF-8 bytes, that a decoded Basic payload holds:
/// the payload must be UTF-8 and hold a `:`; the name is what precedes the first `:`, the
/// password what follows it.
pub open spec fn payload_credentials(payload: Seq<u8>) -> Option<(Seq<u8>, Seq<u8>)> {
    if valid_utf8(payload) {
        match first_index_of(payload, COLON) {
            Some(k) => Some((payload.take(k), payload.skip(k + 1))),
            None => None,
        }
    } else {
        None
    }
}

/// `Engine::decode` of the `base64` crate with its `STANDARD` engine. It decodes the
/// input, or refuses it; what it returns depends on the input alone and is named by
/// `base64_standard_decode`.
#[verifier::external_body]
fn decode_base64_standard(input: &[u8]) -> (r: Option<Vec<u8>>)
    ensures
        match r {
            Some(d) => base64_standard_decode(input@) == Some(d@),
            None => base64_standard_decode(input@) is None,
        },
{
    base64::engine::general_purpose::STANDARD.decode(input).ok()
}

/// Whether every byte of a header value is visible ASCII, which is when the value can be
/// read as text.
pub fn is_header_text_bytes(value: &[u8]) -> (r: bool)
    ensures
        r == is_header_text(value@),
{
    let mut i: usize = 0;
    while i < value.len()
        invariant
            0 <= i <= value@.len(),
            forall|j: int| 0 <= j < i ==> is_visible_ascii(#[trigger] value@[j]),
        decreases value@.len() - i,
    {
        let b = value[i];
        if !((32 <= b && b < 127) || b == 9) {
            return false;
        }
        i = i + 1;
    }
    true
}

/// Whether `value` begins with the bytes of `prefix`.
pub fn starts_with_bytes(value: &[u8], prefix: &[u8]) -> (r: bool)
    ensures
        r == (prefix@.len() <= value@.len() && value@.take(prefix@.len() as int) == prefix@),
{
    if prefix.len() > value.len() {
        return false;
    }
    let mut i: usize = 0;
    while i < prefix.len()
        invariant
            prefix@.len() <= value@.len(),
            0 <= i <= prefix@.len(),
            forall|j: int| 0 <= j < i ==> value@[j] == prefix@[j],
        decreases prefix@.len() - i,
    {
        if value[i] != prefix[i] {
            assert(value@.take(prefix@.len() as int)[i as int] != prefix@[i as int]);
            return false;
        }
        i = i + 1;
    }
    assert(value@.take(prefix@.len() as int) =~= prefix@);
    true
}

/// The bytes of `s` from index `start` up to index `end`.
pub fn copy_range(s: &[u8], start: usize, end: usize) -> (r: Vec<u8>)
    requires
        start <= end <= s@.len(),
    ensures
        r@ == s@.subrange(start as int, end as int),
{
    let mut r: Vec<u8> = Vec::new();
    let mut i: usize = start;
    while i < end
        invariant
            start <= i <= end <= s@.len(),
            r@ == s@.subrange(start as int, i as int),
        decreases end - i,
    {
        r.push(s[i]);
        i = i + 1;
        assert(r@ =~= s@.subrange(start as int, i as int));
    }
    r
}

/// Where `first_index_of` finds a byte: at the first index where it occurs.
pub proof fn lemma_first_index_of(s: Seq<u8>, b: u8, i: int)
    requires
        0 <= i <= s.len(),
        forall|j: int| 0 <= j < i ==> s[j] != b,
    ensures
        i < s.len() && s[i] == b ==> first_index_of(s, b) == Some(i),
        i == s.len() ==> first_index_of(s, b) is None,
    decreases i,
{
    if i > 0 {
        lemma_first_index_of(s.drop_first(), b, i - 1);
    }
}

/// Where `first_index_of` finds a byte, the byte is there and not before.
pub proof fn lemma_first_index_of_found(s: Seq<u8>, b: u8)
    ensures
        first_index_of(s, b) matches Some(k) ==> 0 <= k < s.len() && s[k] == b && forall|j: int|
            0 <= j < k ==> s[j] != b,
    decreases s.len(),
{
    if s.len() > 0 && s[0] != b {
        lemma_first_index_of_found(s.drop_first(), b);
        if let Some(k) = first_index_of(s, b) {
            assert forall|j: int| 0 <= j < k implies s[j] != b by {
                if j > 0 {
                    assert(s[j] == s.drop_first()[j - 1]);
                }
            }
        }
    }
}

/// The index of the first `b` in `s`, if any.
pub fn find_byte(s: &[u8], b: u8) -> (r: Option<usize>)
    ensures
        match r {
            Some(k) => first_index_of(s@, b) == Some(k as int) && k < s@.len() && s@[k as int]
                == b,
            None => first_index_of(s@, b) is None,
        },
{
    let mut i: usize = 0;
    while i < s.len()
        invariant
            0 <= i <= s@.len(),
            forall|j: int| 0 <= j < i ==> s@[j] != b,
        decreases s@.len() - i,
    {
        if s[i] == b {
            proof {
                lemma_first_index_of(s@, b, i as int);
            }
            return Some(i);
        }
        i = i + 1;
    }
    proof {
        lemma_first_index_of(s@, b, i as int);
    }
    None
}

/// Splitting valid UTF-8 at an ASCII byte leaves valid UTF-8 on both sides of it.
pub proof fn lemma_split_at_ascii_byte(d: Seq<u8>, k: int)
    requires
        valid_utf8(d),
        0 <= k < d.len(),
        d[k] < 0x80,
    ensures
        valid_utf8(d.take(k)),
        valid_utf8(d.skip(k + 1)),
{
    is_char_boundary_iff_not_is_continuation_byte(d, k);
    assert(!is_continuation_byte(d[k]));
    assert(is_char_boundary(d, k));
    valid_utf8_split(d, k);
    assert(d.take(k) =~= d.subrange(0, k));
    let rest = d.subrange(k, d.len() as int);
    assert(valid_utf8(rest));
    assert(rest[0] == d[k]);
    assert(pop_first_scalar(rest) =~= d.skip(k + 1));
}

/// Reads the user name and the password from the value of a request's `Authorization`
/// header (`None` where the request has no such header).
pub fn parse_basic_auth(authorization: Option<&[u8]>) -> (r: Option<(String, String)>)
    ensures
        match authorization {
            None => r is None,
            Some(v) => match basic_credentials(v@) {
                None => r is None,
                Some((user, password)) => r matches Some((u, p)) && u@ == decode_utf8(user)
                    && p@ == decode_utf8(password),
            },
        },
{
    let value = match authorization {
        Some(v) => v,
        None => return None,
    };
    if !is_header_text_bytes(value) {
        return None;
    }
    let scheme = "Basic ".as_bytes();
    if !starts_with_bytes(value, scheme) {
        return None;
    }
    let encoded = copy_range(value, scheme.len(), value.len());
    assert(encoded@ =~= value@.skip(scheme@.len() as int));
    let decoded = match decode_base64_standard(encoded.as_slice()) {
        Some(d) => d,
        None => return None,
    };
    credentials_from_payload(decoded)
}

/// Reads the user name and the password from a decoded Basic payload: the text before
/// the first `:` and the text after it (`str::split_once(':')`), where the payload is
/// UTF-8 and holds a `:`.
pub fn credentials_from_payload(decoded: Vec<u8>) -> (r: Option<(String, String)>)
    ensures
        match payload_credentials(decoded@) {
            None => r is None,
            Some((user, password)) => r matches Some((u, p)) && u@ == decode_utf8(user) && p@
                == decode_utf8(password),
        },
{
    let ghost payload = decoded@;
    let k = match find_byte(decoded.as_slice(), COLON) {
        Some(k) => k,
        None => {
            return None;
        },
    };
    let n = decoded.len();
    let user_bytes = copy_range(decoded.as_slice(), 0, k);
    let password_bytes = copy_range(decoded.as_slice(), k + 1, n);
    // the payload must decode as a whole before it is split
    let whole = string_from_utf8(decoded);
    if whole.is_none() {
        return None;
    }
    proof {
        lemma_split_at_ascii_byte(payload, k as int);
        assert(user_bytes@ =~= payload.take(k as int));
        assert(password_bytes@ =~= payload.skip(k + 1));
    }
    let user = string_from_utf8(user_bytes);
    let password = string_from_utf8(password_bytes);
    match (user, password) {
        (Some(u), Some(p)) => Some((u, p)),
        _ => None,
    }
}

/// The character that a single ASCII byte encodes.
proof fn lemma_ascii_scalar(b: Seq<u8>)
    requires
        valid_utf8(b),
        b.len() > 0,
        b[0] < 0x80,
    ensures
        decode_first_scalar(b) == b[0] as u32,
        length_of_first_scalar(b) == 1,
{
    let x = b[0];
    assert(x & 0x7f == x) by (bit_vector)
        requires
            x < 0x80,
    ;
}

/// Decoding valid UTF-8 that holds no `:` byte gives text without `:`.
pub proof fn lemma_decode_without_colon(b: Seq<u8>)
    requires
        valid_utf8(b),
        forall|i: int| 0 <= i < b.len() ==> b[i] != COLON,
    ensures
        !decode_utf8(b).contains(':'),
    decreases b.len(),
{
    if b.len() > 0 {
        let n = length_of_first_scalar(b);
        let rest = pop_first_scalar(b);
        assert forall|i: int| 0 <= i < rest.len() implies rest[i] != COLON by {
            assert(rest[i] == b[i + n]);
        }
        lemma_decode_without_colon(rest);
        let c = decode_first_scalar(b);
        if is_leading_byte_width_1(b[0]) {
            lemma_ascii_scalar(b);
        } else if is_leading_byte_width_2(b[0]) {
            let (x, y) = (b[0], b[1]);
            assert(((((x & 0x1f) as u32) << 6) | ((y & 0x3f) as u32)) <= 0x7ff) by (bit_vector);
        } else if is_leading_byte_width_3(b[0]) {
            let (x, y, z) = (b[0], b[1], b[2]);
            assert(((((x & 0x0f) as u32) << 12) | (((y & 0x3f) as u32) << 6) | ((z & 0x3f) as u32))
                <= 0xffff) by (bit_vector);
        }
        assert(c != 0x3a);
        assert(c <= 0x10ffff);
        assert((c as char) as u32 == c);
        assert((c as char) != ':');
        assert(decode_utf8(b) =~= seq![c as char] + decode_utf8(rest));
        if decode_utf8(b).contains(':') {
            let i = choose|i: int| 0 <= i < decode_utf8(b).len() && decode_utf8(b)[i] == ':';
            if i > 0 {
                assert(decode_utf8(rest)[i - 1] == ':');
            }
        }
    }
}

/// The user name and password that `basic_credentials` reads are the text of the
/// payload split at its first `:`, as `str::split_once(':')` splits it: the payload is
/// the name, a `:`, and the password, and the name holds no `:`.
pub proof fn law_credentials_split_at_first_colon(header: Seq<u8>)
    requires
        basic_credentials(header) is Some,
    ensures
        ({
            let (user, password) = basic_credentials(header)->Some_0;
            let payload = basic_payload(header)->Some_0;
            &&& decode_utf8(payload) == decode_utf8(user) + seq![':'] + decode_utf8(password)
            &&& !decode_utf8(user).contains(':')
        }),
{
    let payload = basic_payload(header)->Some_0;
    let k = first_index_of(payload, COLON)->Some_0;
    lemma_first_index_of_found(payload, COLON);
    let user = payload.take(k);
    let password = payload.skip(k + 1);
    lemma_split_at_ascii_byte(payload, k);
    lemma_decode_without_colon(user);
    is_char_boundary_iff_not_is_continuation_byte(payload, k);
    valid_utf8_split(payload, k);
    decode_utf8_split(payload, k);
    let rest = payload.subrange(k, payload.len() as int);
    assert(user =~= payload.subrange(0, k));
    lemma_ascii_scalar(rest);
    assert(pop_first_scalar(rest) =~= password);
    assert((0x3au32 as char) == ':');
    assert(decode_utf8(rest) =~= seq![':'] + decode_utf8(password));
}

/// The UTF-8 encoding of a concatenation is the concatenation of the encodings.
pub proof fn lemma_encode_utf8_concat(a: Seq<char>, b: Seq<char>)
    ensures
        encode_utf8(a + b) == encode_utf8(a) + encode_utf8(b),
    decreases a.len(),
{
    if a.len() == 0 {
        assert(a + b =~= b);
        assert(encode_utf8(a) + encode_utf8(b) =~= encode_utf8(b));
    } else {
        assert((a + b)[0] == a[0]);
        assert((a + b).drop_first() =~= a.drop_first() + b);
        lemma_encode_utf8_concat(a.drop_first(), b);
        assert(encode_utf8(a + b) =~= encode_utf8(a) + encode_utf8(b));
    }
}

/// Text without `:` encodes to bytes without the `:` byte.
pub proof fn lemma_encode_without_colon(u: Seq<char>)
    requires
        !u.contains(':'),
    ensures
        forall|j: int| 0 <= j < encode_utf8(u).len() ==> encode_utf8(u)[j] != COLON,
{
    let e = encode_utf8(u);
    encode_utf8_valid_utf8(u);
    encode_utf8_decode_utf8(u);
    assert forall|j: int| 0 <= j < e.len() implies e[j] != COLON by {
        if e[j] == COLON {
            is_char_boundary_iff_not_is_continuation_byte(e, j);
            valid_utf8_split(e, j);
            decode_utf8_split(e, j);
            let rest = e.subrange(j, e.len() as int);
            lemma_ascii_scalar(rest);
            assert((0x3au32 as char) == ':');
            let head = decode_utf8(e.subrange(0, j));
            assert(decode_utf8(rest)[0] == ':');
            assert(u[head.len() as int] == ':');
        }
    }
}

/// Credentials round-trip through a payload: for a user name without `:` and any
/// password, the UTF-8 bytes of `user:password` are read back as that user name and that
/// password.
pub proof fn law_payload_round_trip(user: Seq<char>, password: Seq<char>)
    requires
        !user.contains(':'),
    ensures
        ({
            let payload = encode_utf8(user + seq![':'] + password);
            &&& payload_credentials(payload) == Some((encode_utf8(user), encode_utf8(password)))
            &&& decode_utf8(encode_utf8(user)) == user
            &&& decode_utf8(encode_utf8(password)) == password
        }),
{
    let colon = seq![':'];
    let eu = encode_utf8(user);
    let ep = encode_utf8(password);
    lemma_encode_utf8_concat(user + colon, password);
    lemma_encode_utf8_concat(user, colon);
    let c = ':' as u32;
    assert(c == 0x3a);
    assert((c & 0x7f) as u8 == 0x3a) by (bit_vector)
        requires
            c == 0x3a,
    ;
    assert(colon.drop_first() =~= Seq::<char>::empty());
    assert(encode_utf8(colon.drop_first()) =~= Seq::<u8>::empty());
    assert(has_width_1_encoding(c));
    assert(leading_byte_width_1(c) == COLON);
    assert(encode_scalar(c) =~= seq![COLON]);
    assert(colon[0] as u32 == c);
    assert(encode_utf8(colon) =~= seq![COLON]);
    let payload = encode_utf8(user + colon + password);
    assert(payload =~= eu + seq![COLON] + ep);
    encode_utf8_valid_utf8(user + colon + password);
    lemma_encode_without_colon(user);
    let k = eu.len() as int;
    assert forall|j: int| 0 <= j < k implies payload[j] != COLON by {
        assert(payload[j] == eu[j]);
    }
    assert(payload[k] == COLON);
    lemma_first_index_of(payload, COLON, k);
    assert(payload.take(k) =~= eu);
    assert(payload.skip(k + 1) =~= ep);
    encode_utf8_decode_utf8(user);
    encode_utf8_decode_utf8(password);
}

/// Credentials round-trip through an `Authorization` header of any length: where the
/// text after `Basic ` decodes to the UTF-8 bytes of `user:password`, with no `:` in the
/// user name, the header carries exactly that user name and that password.
pub proof fn law_header_round_trip(
    encoded: Seq<u8>,
    user: Seq<char>,
    password: Seq<char>,
)
    requires
        !user.contains(':'),
        base64_standard_decode(encoded) == Some(encode_utf8(user + seq![':'] + password)),
        is_header_text(basic_scheme() + encoded),
    ensures
        basic_credentials(basic_scheme() + encoded) == Some(
            (encode_utf8(user), encode_utf8(password)),
        ),
        decode_utf8(encode_utf8(user)) == user,
        decode_utf8(encode_utf8(password)) == password,
{
    let header = basic_scheme() + encoded;
    let n = basic_scheme().len() as int;
    assert(header.take(n) =~= basic_scheme());
    assert(header.skip(n) =~= encoded);
    law_payload_round_trip(user, password);
}

} // verus!
