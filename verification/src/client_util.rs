//! Request helpers of the SDK's HTTP client: URL joining, auth header
//! selection and error-body truncation.

use vstd::prelude::*;
use vstd::string::StringSliceAdditionalSpecFns;
use vstd::utf8::{decode_utf8, encode_utf8, is_char_boundary};
use crate::text::{
    chars_of, concat_chars, contains_chars, contains_seq, has_prefix, lower_chars, lower_seq,
    starts_with, strip_all_prefix, strip_all_prefix_chars, string_of, sub_chars, trim_chars,
    trim_seq,
};
use crate::url::strip_slashes;
use crate::json::{get, get_spec, member, member_of, JsonValue};
use crate::sdk_error::{Error, SdkResult};

verus! {

broadcast use vstd::utf8::encode_utf8_decode_utf8;

/// `base` without trailing `/`, a `/`, then `path` without leading `/`.
pub open spec fn join_url_spec(base: Seq<char>, path: Seq<char>) -> Seq<char> {
    strip_slashes(base) + "/"@ + strip_all_prefix(path, "/"@)
}

/// Joins a base URL and a relative path with exactly one `/`.
pub fn join_url(base: &str, path: &str) -> (r: String)
    ensures
        r@ == join_url_spec(base@, path@),
{
    let b = chars_of(base);
    let mut n = b.len();
    assert(b@.take(n as int) =~= b@);
    while n > 0 && b[n - 1] == '/'
        invariant
            n <= b@.len(),
            strip_slashes(b@) == strip_slashes(b@.take(n as int)),
        decreases n,
    {
        assert(b@.take(n as int).drop_last() =~= b@.take(n - 1));
        n -= 1;
    }
    let head = sub_chars(&b, 0, n);
    assert(head@ =~= b@.take(n as int));
    let tail = strip_all_prefix_chars(&chars_of(path), &chars_of("/"));
    let v = concat_chars(&head, &chars_of("/"));
    string_of(&concat_chars(&v, &tail))
}

/// A pasted session cookie rather than a bearer token.
pub open spec fn looks_like_cookie_spec(token: Seq<char>) -> bool {
    let t = trim_seq(token);
    has_prefix(lower_seq(t), "cookie:"@) || contains_seq(t, "session_token="@)
}

/// Whether `token` is a cookie (`Cookie: …` or a `session_token=` pair).
pub fn looks_like_cookie(token: &str) -> (r: bool)
    ensures
        r == looks_like_cookie_spec(token@),
{
    let t = trim_chars(&chars_of(token));
    let lower = lower_chars(&t);
    starts_with(&lower, &chars_of("cookie:")) || contains_chars(&t, &chars_of("session_token="))
}

/// Which header carries the credential.
#[derive(Clone, Copy, Debug, PartialEq, Eq, Structural)]
pub enum AuthHeader {
    Cookie,
    Authorization,
}

/// `t` without a leading `Cookie:` (or `cookie:`).
pub open spec fn strip_cookie_label(t: Seq<char>) -> Seq<char> {
    if has_prefix(t, "Cookie:"@) {
        t.skip("Cookie:"@.len() as int)
    } else if has_prefix(t, "cookie:"@) {
        t.skip("cookie:"@.len() as int)
    } else {
        t
    }
}

/// The header and its value for a stored credential.
pub open spec fn auth_header_spec(token: Seq<char>) -> (AuthHeader, Seq<char>) {
    if looks_like_cookie_spec(token) {
        (AuthHeader::Cookie, trim_seq(strip_cookie_label(trim_seq(token))))
    } else if token.contains(' ') {
        (AuthHeader::Authorization, token)
    } else {
        (AuthHeader::Authorization, "Bearer "@ + token)
    }
}

/// Drops a leading `label` from `t`, if present.
pub fn strip_label(t: &Vec<char>, label: &str) -> (r: Option<Vec<char>>)
    ensures
        match r {
            Some(v) => has_prefix(t@, label@) && v@ == t@.skip(label@.len() as int),
            None => !has_prefix(t@, label@),
        },
{
    let l = chars_of(label);
    if starts_with(t, &l) {
        let v = sub_chars(t, l.len(), t.len());
        assert(v@ =~= t@.skip(label@.len() as int));
        Some(v)
    } else {
        None
    }
}

/// The header a request carries for `token`: a cookie header for pasted
/// cookies, otherwise `Authorization` (with `Bearer ` added to a bare token).
pub fn auth_header(token: &str) -> (r: (AuthHeader, String))
    ensures
        r.0 == auth_header_spec(token@).0,
        r.1@ == auth_header_spec(token@).1,
{
    if looks_like_cookie(token) {
        let t = trim_chars(&chars_of(token));
        let rest = match strip_label(&t, "Cookie:") {
            Some(v) => v,
            None => match strip_label(&t, "cookie:") {
                Some(v) => v,
                None => t,
            },
        };
        return (AuthHeader::Cookie, string_of(&trim_chars(&rest)));
    }
    let tc = chars_of(token);
    if crate::text::contains_char(&tc, ' ') {
        (AuthHeader::Authorization, string_of(&tc))
    } else {
        (AuthHeader::Authorization, string_of(&concat_chars(&chars_of("Bearer "), &tc)))
    }
}

/// Longest response body kept in an error, in bytes.
pub const MAX_BODY_BYTES: usize = 2048;

/// `body` cut to its first 2048 UTF-8 bytes, with `…` appended when cut.
pub open spec fn truncate_body_spec(body: Seq<char>) -> Seq<char> {
    let bytes = encode_utf8(body);
    if bytes.len() <= MAX_BODY_BYTES {
        body
    } else {
        decode_utf8(bytes.take(MAX_BODY_BYTES as int)) + "…"@
    }
}

/// Truncates a response body for an error message. The cut must fall on a
/// character boundary.
pub fn truncate_body(body: &str) -> (r: String)
    requires
        encode_utf8(body@).len() <= MAX_BODY_BYTES || is_char_boundary(
            encode_utf8(body@),
            MAX_BODY_BYTES as int,
        ),
    ensures
        r@ == truncate_body_spec(body@),
{
    let bytes = body.as_bytes();
    if bytes.len() <= MAX_BODY_BYTES {
        return string_of(&chars_of(body));
    }
    let (head, _) = body.split_at(MAX_BODY_BYTES);
    assert(decode_utf8(encode_utf8(head@)) == head@);
    string_of(&concat_chars(&chars_of(head), &chars_of("…")))
}

/// The status filter a list request sends: none for an empty filter or
/// `all` (any case).
pub fn list_status_filter(status: Option<&str>) -> (r: Option<String>)
    ensures
        match status {
            Some(s) => if s@.len() == 0 || lower_seq(s@) == "all"@ {
                r is None
            } else {
                r matches Some(x) && x@ == s@
            },
            None => r is None,
        },
{
    match status {
        Some(s) => {
            let c = chars_of(s);
            if c.len() == 0 || crate::text::chars_eq(&lower_chars(&c), &chars_of("all")) {
                None
            } else {
                Some(string_of(&c))
            }
        },
        None => None,
    }
}

/// The first of `keys` whose member is an array.
pub open spec fn first_array_member(m: Seq<(String, JsonValue)>, keys: Seq<Seq<char>>) -> Option<Seq<JsonValue>>
    decreases keys.len(),
{
    if keys.len() == 0 {
        None
    } else {
        match member_of(m, keys[0]) {
            Some(JsonValue::Array(a)) => Some(a@),
            _ => first_array_member(m, keys.drop_first()),
        }
    }
}

/// The items of a list answer: the answer itself when it is an array, else
/// the first of `keys` that holds an array; `Message` otherwise.
pub fn named_list(value: JsonValue, keys: &Vec<&str>) -> (r: SdkResult<Vec<JsonValue>>)
    ensures
        match value {
            JsonValue::Array(a) => r matches Ok(items) && items@ == a@,
            JsonValue::Object(m) => match first_array_member(m@, keys@.map_values(|k: &str| k@)) {
                Some(items) => r matches Ok(got) && got@ == items,
                None => r matches Err(Error::Message(_)),
            },
            _ => r matches Err(Error::Message(_)),
        },
{
    let ghost kv = keys@.map_values(|k: &str| k@);
    let ghost v0 = value;
    match value {
        JsonValue::Array(a) => Ok(a),
        JsonValue::Object(m) => {
            let ghost mv = m@;
            let mut m = m;
            let mut i: usize = 0;
            assert(kv.skip(0) =~= kv);
            while i < keys.len()
                invariant
                    i <= keys@.len(),
                    kv == keys@.map_values(|k: &str| k@),
                    mv == m@,
                    v0 == value,
                    v0 matches JsonValue::Object(mm) && mm@ == mv,
                    first_array_member(mv, kv) == first_array_member(mv, kv.skip(i as int)),
                decreases keys.len() - i,
            {
                proof {
                    assert(kv.skip(i as int)[0] == keys@[i as int]@);
                    assert(kv.skip(i as int).drop_first() =~= kv.skip(i + 1));
                }
                match crate::json::member_index(&m, keys[i]) {
                    Some(idx) => {
                        if matches!(m[idx].1, JsonValue::Array(_)) {
                            let (_, v) = m.remove(idx);
                            match v {
                                JsonValue::Array(a) => return Ok(a),
                                _ => {},
                            }
                            return Err(Error::Message(string_of(&chars_of("expected an array in list response"))));
                        }
                    },
                    None => {},
                }
                i += 1;
            }
            Err(Error::Message(string_of(&chars_of("expected an array (or one of the list keys) in list response"))))
        },
        _ => Err(Error::Message(string_of(&chars_of("expected JSON array or object in list response")))),
    }
}

fn take_member(m: Vec<(String, JsonValue)>, key: &str) -> (r: Result<JsonValue, Vec<(String, JsonValue)>>)
    ensures
        match member_of(m@, key@) {
            Some(x) => r == Ok::<JsonValue, Vec<(String, JsonValue)>>(x),
            None => r matches Err(back) && back == m,
        },
{
    match crate::json::member_index(&m, key) {
        Some(i) => {
            let mut m = m;
            let (_, v) = m.remove(i);
            Ok(v)
        },
        None => Err(m),
    }
}

/// The enrollment an `enroll-get` answer holds: its `enrollment`,
/// `request` or `item` member (the first present), else the answer itself.
pub fn enroll_item_value(value: JsonValue) -> (r: JsonValue)
    ensures
        r == match (get_spec(value, "enrollment"@), get_spec(value, "request"@), get_spec(value, "item"@)) {
            (Some(x), _, _) => x,
            (None, Some(x), _) => x,
            (None, None, Some(x)) => x,
            _ => value,
        },
{
    match value {
        JsonValue::Object(m) => {
            let m = match take_member(m, "enrollment") {
                Ok(x) => return x,
                Err(m) => m,
            };
            let m = match take_member(m, "request") {
                Ok(x) => return x,
                Err(m) => m,
            };
            let m = match take_member(m, "item") {
                Ok(x) => return x,
                Err(m) => m,
            };
            JsonValue::Object(m)
        },
        other => other,
    }
}

} // verus!
