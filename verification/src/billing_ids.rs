//! Billing identifiers read from a bearer JWT and the paying-party response.

use vstd::prelude::*;
use vstd::utf8::encode_utf8;
use crate::json::{get, get_spec, json_parse, parse_json, JsonValue};
use crate::sdk_error::{Error, SdkResult};
use crate::text::{chars_of, copy_string, has_prefix, split_chars, split_seq, string_of, trim_chars, trim_seq};

verus! {

#[derive(Clone, Debug)]
pub struct BillingPartyIds {
    pub paying_party_id: String,
    pub member_id: String,
}

/// The 6-bit value of a base64 character; both the standard (`+`, `/`) and
/// the URL-safe (`-`, `_`) alphabets are accepted.
pub open spec fn sextet(b: u8) -> Option<int> {
    if 65 <= b <= 90 {
        Some(b - 65)
    } else if 97 <= b <= 122 {
        Some(b - 97 + 26)
    } else if 48 <= b <= 57 {
        Some(b - 48 + 52)
    } else if b == 43 || b == 45 {
        Some(62)
    } else if b == 47 || b == 95 {
        Some(63)
    } else {
        None
    }
}

/// The sextets before the first `=`; `None` if a character before it is not
/// base64.
pub open spec fn sextets(bytes: Seq<u8>) -> Option<Seq<int>>
    decreases bytes.len(),
{
    if bytes.len() == 0 || bytes[0] == 61 {
        Some(Seq::empty())
    } else {
        match (sextet(bytes[0]), sextets(bytes.drop_first())) {
            (Some(v), Some(rest)) => Some(seq![v] + rest),
            _ => None,
        }
    }
}

/// Bytes of a run of sextets: every 4 give 3 bytes; a trailing 2 give 1 and
/// a trailing 3 give 2.
pub open spec fn sextet_bytes(vs: Seq<int>) -> Seq<u8>
    decreases vs.len(),
{
    if vs.len() < 2 {
        Seq::empty()
    } else {
        let b0 = (vs[0] * 4 + vs[1] / 16) as u8;
        if vs.len() == 2 {
            seq![b0]
        } else {
            let b1 = ((vs[1] % 16) * 16 + vs[2] / 4) as u8;
            if vs.len() == 3 {
                seq![b0, b1]
            } else {
                let b2 = ((vs[2] % 4) * 64 + vs[3]) as u8;
                seq![b0, b1, b2] + sextet_bytes(vs.skip(4))
            }
        }
    }
}

/// Lenient base64: either alphabet, padding optional, decoding stops at `=`.
pub open spec fn lenient_b64_spec(bytes: Seq<u8>) -> Option<Seq<u8>> {
    match sextets(bytes) {
        Some(vs) => Some(sextet_bytes(vs)),
        None => None,
    }
}

fn sextet_exec(b: u8) -> (r: Option<u8>)
    ensures
        match r {
            Some(v) => sextet(b) == Some(v as int) && v < 64,
            None => sextet(b) is None,
        },
{
    if 65 <= b && b <= 90 {
        Some(b - 65)
    } else if 97 <= b && b <= 122 {
        Some(b - 97 + 26)
    } else if 48 <= b && b <= 57 {
        Some(b - 48 + 52)
    } else if b == 43 || b == 45 {
        Some(62)
    } else if b == 47 || b == 95 {
        Some(63)
    } else {
        None
    }
}

/// Decodes base64 leniently (see [`lenient_b64_spec`]).
pub fn b64url_decode(input: &[u8]) -> (r: Option<Vec<u8>>)
    ensures
        match r {
            Some(v) => lenient_b64_spec(input@) == Some(v@),
            None => lenient_b64_spec(input@) is None,
        },
{
    let mut vals: Vec<u8> = Vec::new();
    let mut i: usize = 0;
    assert(input@.skip(0) =~= input@);
    while i < input.len() && input[i] != 61
        invariant
            i <= input@.len(),
            forall|k: int| 0 <= k < vals@.len() ==> #[trigger] vals@[k] < 64,
            sextets(input@) == match sextets(input@.skip(i as int)) {
                Some(t) => Some(vals@.map_values(|x: u8| x as int) + t),
                None => None::<Seq<int>>,
            },
        decreases input.len() - i,
    {
        let ghost rest = input@.skip(i as int);
        assert(rest[0] == input@[i as int]);
        assert(rest.drop_first() =~= input@.skip(i + 1));
        match sextet_exec(input[i]) {
            None => {
                return None;
            },
            Some(v) => {
                let ghost before = vals@.map_values(|x: u8| x as int);
                vals.push(v);
                assert(vals@.map_values(|x: u8| x as int) =~= before + seq![v as int]);
                proof {
                    match sextets(input@.skip(i + 1)) {
                        Some(t) => {
                            assert(before + (seq![v as int] + t) =~= (before + seq![v as int]) + t);
                        },
                        None => {},
                    }
                }
            },
        }
        i += 1;
    }
    let ghost vs = vals@.map_values(|x: u8| x as int);
    assert(sextets(input@.skip(i as int)) == Some(Seq::<int>::empty()));
    assert(sextets(input@) == Some(vs)) by {
        assert(vs + Seq::<int>::empty() =~= vs);
    }
    let mut out: Vec<u8> = Vec::new();
    let mut j: usize = 0;
    assert(vs.skip(0) =~= vs);
    while j < vals.len()
        invariant
            j <= vals@.len(),
            vs == vals@.map_values(|x: u8| x as int),
            forall|k: int| 0 <= k < vals@.len() ==> #[trigger] vals@[k] < 64,
            sextet_bytes(vs) == out@ + sextet_bytes(vs.skip(j as int)),
        ensures
            j == vals@.len(),
            sextet_bytes(vs) == out@ + sextet_bytes(vs.skip(j as int)),
        decreases vals.len() - j,
    {
        let ghost rest = vs.skip(j as int);
        if vals.len() - j < 2 {
            assert(sextet_bytes(rest) =~= Seq::<u8>::empty());
            assert(out@ + Seq::<u8>::empty() =~= out@);
            j = vals.len();
            assert(vs.skip(j as int).len() == 0);
            assert(sextet_bytes(vs.skip(j as int)) =~= Seq::<u8>::empty());
            break;
        }
        let v0 = vals[j];
        let v1 = vals[j + 1];
        assert(rest[0] == v0 as int && rest[1] == v1 as int);
        let b0: u8 = v0 * 4 + v1 / 16;
        if vals.len() - j == 2 {
            out.push(b0);
            assert(sextet_bytes(rest) =~= seq![b0]);
            j = vals.len();
            assert(sextet_bytes(vs.skip(j as int)) =~= Seq::<u8>::empty());
            assert(out@ =~= out@ + Seq::<u8>::empty());
            break;
        }
        let v2 = vals[j + 2];
        assert(rest[2] == v2 as int);
        let b1: u8 = (v1 % 16) * 16 + v2 / 4;
        if vals.len() - j == 3 {
            out.push(b0);
            out.push(b1);
            assert(sextet_bytes(rest) =~= seq![b0, b1]);
            j = vals.len();
            assert(sextet_bytes(vs.skip(j as int)) =~= Seq::<u8>::empty());
            assert(out@ =~= out@ + Seq::<u8>::empty());
            break;
        }
        let v3 = vals[j + 3];
        assert(rest[3] == v3 as int);
        let b2: u8 = (v2 % 4) * 64 + v3;
        let ghost before = out@;
        out.push(b0);
        out.push(b1);
        out.push(b2);
        assert(rest.skip(4) =~= vs.skip(j + 4));
        assert(sextet_bytes(rest) == seq![b0, b1, b2] + sextet_bytes(vs.skip(j + 4)));
        assert(out@ =~= before + seq![b0, b1, b2]);
        assert(before + (seq![b0, b1, b2] + sextet_bytes(vs.skip(j + 4))) =~= out@ + sextet_bytes(
            vs.skip(j + 4),
        ));
        j = j + 4;
    }
    assert(vs.skip(j as int).len() == 0);
    assert(sextet_bytes(vs.skip(j as int)) =~= Seq::<u8>::empty());
    assert(out@ + sextet_bytes(vs.skip(j as int)) =~= out@);
    Some(out)
}

/// The token without a leading `Bearer ` (after trimming), trimmed.
pub open spec fn bare_token(token: Seq<char>) -> Seq<char> {
    let t = trim_seq(token);
    if has_prefix(t, "Bearer "@) {
        trim_seq(t.skip("Bearer "@.len() as int))
    } else {
        trim_seq(token)
    }
}

/// The claims of a JWT, read without checking its signature.
pub open spec fn jwt_payload_spec(token: Seq<char>) -> Option<JsonValue> {
    let parts = split_seq(bare_token(token), '.');
    if parts.len() < 2 {
        None
    } else {
        match lenient_b64_spec(encode_utf8(parts[1])) {
            Some(bytes) => json_parse(bytes),
            None => None,
        }
    }
}

/// Decodes a JWT's claims without verifying it.
pub fn jwt_payload(token: &str) -> (r: Option<JsonValue>)
    ensures
        r == jwt_payload_spec(token@),
{
    let t = trim_chars(&chars_of(token));
    let raw = match crate::client_util::strip_label(&t, "Bearer ") {
        Some(rest) => trim_chars(&rest),
        None => trim_chars(&chars_of(token)),
    };
    let parts = split_chars(&raw, '.');
    if parts.len() < 2 {
        return None;
    }
    let piece = string_of(&parts[1]);
    let bytes = match b64url_decode(piece.as_str().as_bytes()) {
        Some(b) => b,
        None => return None,
    };
    parse_json(bytes.as_slice())
}

/// A non-empty string claim of a JWT.
pub open spec fn jwt_claim_spec(token: Seq<char>, claim: Seq<char>) -> Option<Seq<char>> {
    match jwt_payload_spec(token) {
        Some(v) => match get_spec(v, claim) {
            Some(JsonValue::Str(s)) => if s@.len() > 0 {
                Some(s@)
            } else {
                None
            },
            _ => None,
        },
        None => None,
    }
}

/// Reads a non-empty string claim from a JWT (unverified).
pub fn jwt_claim_string(token: &str, claim: &str) -> (r: Option<String>)
    ensures
        match r {
            Some(s) => jwt_claim_spec(token@, claim@) == Some(s@),
            None => jwt_claim_spec(token@, claim@) is None,
        },
{
    let v = match jwt_payload(token) {
        Some(v) => v,
        None => return None,
    };
    match get(&v, claim) {
        Some(JsonValue::Str(s)) => {
            if s.as_str().is_empty() {
                None
            } else {
                Some(copy_string(s.as_str()))
            }
        },
        _ => None,
    }
}

/// An id given as a non-empty string or as a number.
pub open spec fn json_id_spec(v: Option<JsonValue>) -> Option<Seq<char>> {
    match v {
        Some(JsonValue::Str(s)) => if s@.len() > 0 {
            Some(s@)
        } else {
            None
        },
        Some(JsonValue::Number(n)) => Some(n.text@),
        _ => None,
    }
}

/// Reads an id given as a non-empty string or a number.
pub fn json_id(v: Option<&JsonValue>) -> (r: Option<String>)
    ensures
        match r {
            Some(s) => json_id_spec(match v {
                Some(x) => Some(*x),
                None => None,
            }) == Some(s@),
            None => json_id_spec(match v {
                Some(x) => Some(*x),
                None => None,
            }) is None,
        },
{
    match v {
        Some(JsonValue::Str(s)) => {
            if s.as_str().is_empty() {
                None
            } else {
                Some(copy_string(s.as_str()))
            }
        },
        Some(JsonValue::Number(n)) => Some(copy_string(n.text.as_str())),
        _ => None,
    }
}

/// The body of a `/paying-parties/me` answer: its `data` member where there
/// is one, else the whole document.
pub open spec fn party_data(me: JsonValue) -> JsonValue {
    match get_spec(me, "data"@) {
        Some(d) => d,
        None => me,
    }
}

/// The personal paying party's id in a `/paying-parties/me` answer.
pub open spec fn personal_party_id(me: JsonValue) -> Option<Seq<char>> {
    match get_spec(party_data(me), "personal"@) {
        Some(p) => json_id_spec(get_spec(p, "id"@)),
        None => None,
    }
}

/// The ids a register/enroll call needs, from the bearer token and the
/// `/paying-parties/me` response body.
pub fn party_ids_from(token: Option<&str>, me: &JsonValue) -> (r: SdkResult<BillingPartyIds>)
    ensures
        match token {
            None => r matches Err(Error::Auth(m)) && m@
                == "not logged in — run auth login with a billing JWT"@,
            Some(t) => match jwt_claim_spec(t@, "member_id"@) {
                None => r matches Err(Error::Auth(m)) && m@
                    == "JWT has no member_id — paste the portal access token (eyJ…), not a session cookie"@,
                Some(member) => match personal_party_id(*me) {
                    Some(party) => r matches Ok(ids) && ids.member_id@ == member
                        && ids.paying_party_id@ == party,
                    None => r matches Err(Error::Auth(_)),
                },
            },
        },
{
    let token = match token {
        Some(t) => t,
        None => return Err(Error::auth("not logged in — run auth login with a billing JWT")),
    };
    let member_id = match jwt_claim_string(token, "member_id") {
        Some(m) => m,
        None => return Err(
            Error::auth(
                "JWT has no member_id — paste the portal access token (eyJ…), not a session cookie",
            ),
        ),
    };
    let data = match get(me, "data") {
        Some(d) => d,
        None => me,
    };
    let personal = match get(data, "personal") {
        Some(p) => p,
        None => return Err(Error::auth("GET /paying-parties/me missing personal paying party")),
    };
    let paying_party_id = match json_id(get(personal, "id")) {
        Some(id) => id,
        None => return Err(Error::auth("GET /paying-parties/me personal.id missing")),
    };
    Ok(BillingPartyIds { paying_party_id, member_id })
}

} // verus!
