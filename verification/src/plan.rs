//! The public plan catalog: one plan read from `GET /api/v1/plans`.

use vstd::prelude::*;
use crate::error::{ErrorCode, TwoKeyError, TwoKeyResult};
use crate::json::{copy_json, json_same, lossy_spec, member, member_of, JsonNumber, JsonValue};
use crate::models::{as_string, deref_opt, get_key, get_key_spec, str_opt, strings_view, view_opt};
use crate::text::{all_digits, chars_of, copy_string, digits_value, parse_u64_chars, parse_u64_seq};

verus! {

/// A catalog plan.
#[derive(Debug)]
pub struct Plan {
    pub id: i64,
    pub product_id: i64,
    pub name: String,
    pub description: Option<String>,
    /// `monthly` / `annual`.
    pub billing_interval: String,
    /// The base price as the number it was given as.
    pub base_price: JsonNumber,
    pub currency: String,
    pub features: Vec<String>,
    pub features_json: Option<JsonValue>,
    pub addon_code: Option<String>,
    pub is_active: bool,
}

/// `s` read as an `i64` the way `str::parse` does: an optional sign, then
/// decimal digits, in range.
pub open spec fn parse_i64_seq(s: Seq<char>) -> Option<i64> {
    if s.len() > 0 && s[0] == '-' {
        let d = s.drop_first();
        if d.len() > 0 && all_digits(d) && digits_value(d) <= 0x8000_0000_0000_0000 {
            Some((0 - digits_value(d)) as i64)
        } else {
            None
        }
    } else {
        match parse_u64_seq(s) {
            Some(u) => if u <= i64::MAX {
                Some(u as i64)
            } else {
                None
            },
            None => None,
        }
    }
}

/// Reads an `i64` (see [`parse_i64_seq`]).
pub fn parse_i64_chars(s: &Vec<char>) -> (r: Option<i64>)
    ensures
        r == parse_i64_seq(s@),
{
    if s.len() > 0 && s[0] == '-' {
        let mut rest: Vec<char> = Vec::new();
        let mut i: usize = 1;
        while i < s.len()
            invariant
                1 <= i <= s@.len(),
                rest@ == s@.subrange(1, i as int),
            decreases s.len() - i,
        {
            rest.push(s[i]);
            i += 1;
        }
        assert(rest@ =~= s@.drop_first());
        let ghost d = s@.drop_first();
        if rest.len() > 0 && rest[0] == '+' {
            assert(!crate::text::is_digit(d[0]));
            assert(!all_digits(d));
            return None;
        }
        assert(parse_u64_seq(d) == if d.len() > 0 && all_digits(d) && digits_value(d) <= u64::MAX {
            Some(digits_value(d) as u64)
        } else {
            None::<u64>
        });
        match parse_u64_chars(&rest) {
            Some(u) => {
                proof {
                    crate::text::lemma_digits_nonneg(d);
                }
                assert(u == digits_value(d));
                if u <= 0x8000_0000_0000_0000u64 {
                    if u == 0x8000_0000_0000_0000u64 {
                        Some(-0x7fff_ffff_ffff_ffffi64 - 1)
                    } else {
                        let v: i64 = u as i64;
                        assert(-v == (0 - digits_value(d)) as i64);
                        Some(-v)
                    }
                } else {
                    None
                }
            },
            None => None,
        }
    } else {
        match parse_u64_chars(s) {
            Some(u) => {
                if u <= 0x7fff_ffff_ffff_ffffu64 {
                    Some(u as i64)
                } else {
                    None
                }
            },
            None => None,
        }
    }
}

/// An id: a number as an `i64` (floats truncated), else a string that
/// parses as one, else 0.
pub open spec fn int_or_zero(v: Option<JsonValue>) -> i64 {
    match v {
        Some(JsonValue::Number(n)) => lossy_spec(n),
        Some(JsonValue::Str(s)) => match parse_i64_seq(s@) {
            Some(i) => i,
            None => 0,
        },
        _ => 0,
    }
}

fn int_or_zero_exec(v: Option<&JsonValue>) -> (r: i64)
    ensures
        r == int_or_zero(deref_opt(v)),
{
    match v {
        Some(JsonValue::Number(n)) => n.lossy_i64(),
        Some(JsonValue::Str(s)) => match parse_i64_chars(&chars_of(s.as_str())) {
            Some(i) => i,
            None => 0,
        },
        _ => 0,
    }
}

/// The strings of an array, in order, other items skipped.
pub open spec fn strings_of(items: Seq<JsonValue>) -> Seq<Seq<char>>
    decreases items.len(),
{
    if items.len() == 0 {
        Seq::empty()
    } else {
        (match items[0] {
            JsonValue::Str(s) => seq![s@],
            _ => Seq::<Seq<char>>::empty(),
        }) + strings_of(items.drop_first())
    }
}

fn strings_in(items: &Vec<JsonValue>) -> (r: Vec<String>)
    ensures
        strings_view(r@) == strings_of(items@),
{
    let mut out: Vec<String> = Vec::new();
    let mut i: usize = 0;
    assert(items@.skip(0) =~= items@);
    while i < items.len()
        invariant
            i <= items@.len(),
            strings_of(items@) == strings_view(out@) + strings_of(items@.skip(i as int)),
        decreases items.len() - i,
    {
        let ghost rest = items@.skip(i as int);
        assert(rest.drop_first() =~= items@.skip(i + 1));
        assert(rest[0] == items@[i as int]);
        let ghost before = strings_view(out@);
        match &items[i] {
            JsonValue::Str(s) => {
                let c = copy_string(s.as_str());
                let ghost cv = c@;
                out.push(c);
                assert(strings_view(out@) =~= before.push(cv));
                assert(before + (seq![cv] + strings_of(items@.skip(i + 1))) =~= before.push(cv) + strings_of(
                    items@.skip(i + 1),
                ));
            },
            _ => {
                assert(Seq::<Seq<char>>::empty() + strings_of(items@.skip(i + 1)) =~= strings_of(
                    items@.skip(i + 1),
                ));
            },
        }
        i += 1;
    }
    assert(items@.skip(i as int) =~= Seq::<JsonValue>::empty());
    assert(strings_view(out@) + Seq::<Seq<char>>::empty() =~= strings_view(out@));
    out
}

/// The strings of an array member, none when it is not an array.
pub open spec fn array_strings(v: Option<JsonValue>) -> Seq<Seq<char>> {
    match v {
        Some(JsonValue::Array(a)) => strings_of(a@),
        _ => Seq::empty(),
    }
}

fn array_strings_exec(v: Option<&JsonValue>) -> (r: Vec<String>)
    ensures
        strings_view(r@) == array_strings(deref_opt(v)),
{
    match v {
        Some(JsonValue::Array(a)) => strings_in(a),
        _ => Vec::new(),
    }
}

/// The features of a plan: its `features` strings; when there are none,
/// those of a `features_json` object's `features` array, or of a
/// `features_json` array.
pub open spec fn plan_features(m: Seq<(String, JsonValue)>) -> Seq<Seq<char>> {
    let top = array_strings(member_of(m, "features"@));
    if top.len() > 0 {
        top
    } else {
        match get_key_spec(m, "features_json"@, "featuresJson"@) {
            Some(JsonValue::Object(o)) => array_strings(member_of(o@, "features"@)),
            Some(JsonValue::Array(a)) => strings_of(a@),
            _ => top,
        }
    }
}

/// Why an object is not a plan, if it is not.
pub open spec fn plan_problem(v: JsonValue) -> Option<Seq<char>> {
    match v {
        JsonValue::Object(mm) => {
            let m = mm@;
            if str_opt(member_of(m, "name"@)) is None {
                Some("plan.name required"@)
            } else if str_opt(get_key_spec(m, "billing_interval"@, "billingInterval"@)) is None {
                Some("plan.billing_interval required"@)
            } else if !(get_key_spec(m, "base_price"@, "basePrice"@) matches Some(JsonValue::Number(_))) {
                Some("plan.base_price required"@)
            } else if str_opt(member_of(m, "currency"@)) is None {
                Some("plan.currency required"@)
            } else {
                None
            }
        },
        _ => Some("plan must be an object"@),
    }
}

/// `p` is the plan object `m` describes.
pub open spec fn reads_plan(m: Seq<(String, JsonValue)>, p: Plan) -> bool {
    &&& p.id == int_or_zero(member_of(m, "id"@))
    &&& p.product_id == int_or_zero(get_key_spec(m, "product_id"@, "productId"@))
    &&& str_opt(member_of(m, "name"@)) == Some(p.name@)
    &&& view_opt(p.description) == str_opt(member_of(m, "description"@))
    &&& str_opt(get_key_spec(m, "billing_interval"@, "billingInterval"@)) == Some(p.billing_interval@)
    &&& get_key_spec(m, "base_price"@, "basePrice"@) matches Some(x) && json_same(JsonValue::Number(p.base_price), x)
    &&& str_opt(member_of(m, "currency"@)) == Some(p.currency@)
    &&& strings_view(p.features@) == plan_features(m)
    &&& match get_key_spec(m, "features_json"@, "featuresJson"@) {
        Some(JsonValue::Object(o)) => p.features_json matches Some(j) && json_same(j, JsonValue::Object(o)),
        _ => p.features_json is None,
    }
    &&& view_opt(p.addon_code) == str_opt(get_key_spec(m, "addon_code"@, "addonCode"@))
    &&& p.is_active == match get_key_spec(m, "is_active"@, "isActive"@) {
        Some(JsonValue::Bool(b)) => b,
        _ => true,
    }
}

fn invalid(message: &str) -> (r: TwoKeyError)
    ensures
        r.code == ErrorCode::InvalidResponse,
        r.message@ == message@,
{
    TwoKeyError::new(ErrorCode::InvalidResponse, message)
}

impl Plan {
    /// Reads one plan object: `name`, `billing_interval`, `base_price` (a
    /// number) and `currency` are required; ids default to 0 and
    /// `is_active` to true.
    pub fn from_value(v: &JsonValue) -> (r: TwoKeyResult<Plan>)
        ensures
            match plan_problem(*v) {
                Some(msg) => r matches Err(e) && e.code == ErrorCode::InvalidResponse && e.message@ == msg,
                None => r matches Ok(p) && (v matches JsonValue::Object(m) && reads_plan(m@, p)),
            },
    {
        let m = match v {
            JsonValue::Object(m) => m,
            _ => return Err(invalid("plan must be an object")),
        };
        let name = match as_string(member(m, "name")) {
            Some(s) => s,
            None => return Err(invalid("plan.name required")),
        };
        let billing_interval = match as_string(get_key(m, "billing_interval", "billingInterval")) {
            Some(s) => s,
            None => return Err(invalid("plan.billing_interval required")),
        };
        let base_price = match get_key(m, "base_price", "basePrice") {
            Some(JsonValue::Number(n)) => JsonNumber {
                as_i64: n.as_i64,
                as_u64: n.as_u64,
                as_f64_truncated: n.as_f64_truncated,
                text: copy_string(n.text.as_str()),
            },
            _ => return Err(invalid("plan.base_price required")),
        };
        let currency = match as_string(member(m, "currency")) {
            Some(s) => s,
            None => return Err(invalid("plan.currency required")),
        };
        let top = array_strings_exec(member(m, "features"));
        let raw = get_key(m, "features_json", "featuresJson");
        let features = if top.len() > 0 {
            top
        } else {
            match raw {
                Some(JsonValue::Object(o)) => array_strings_exec(member(o, "features")),
                Some(JsonValue::Array(a)) => strings_in(a),
                _ => top,
            }
        };
        let features_json = match raw {
            Some(JsonValue::Object(_)) => Some(copy_json(raw.unwrap())),
            _ => None,
        };
        let is_active = match get_key(m, "is_active", "isActive") {
            Some(JsonValue::Bool(b)) => *b,
            _ => true,
        };
        Ok(Plan {
            id: int_or_zero_exec(member(m, "id")),
            product_id: int_or_zero_exec(get_key(m, "product_id", "productId")),
            name,
            description: as_string(member(m, "description")),
            billing_interval,
            base_price,
            currency,
            features,
            features_json,
            addon_code: as_string(get_key(m, "addon_code", "addonCode")),
            is_active,
        })
    }
}

} // verus!
