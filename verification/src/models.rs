//! License token claims: paying party, subscriptions and their offerings.
//!
//! Claims are read from JSON objects whose keys may be snake_case or
//! camelCase; the snake_case key wins when both are present.

use vstd::prelude::*;
use crate::error::{ErrorCode, TwoKeyError, TwoKeyResult};
use crate::json::{member, member_index, member_of, JsonValue, lemma_member_remove};
use crate::text::{
    chars_of, concat_chars, copy_string, decimal_spec, lower_chars, lower_seq, nat_decimal,
    u64_decimal_chars,
    string_of, trim_chars, trim_seq,
};

verus! {

// ---------------------------------------------------------------------------
// Reading members
// ---------------------------------------------------------------------------

/// `m[snake]`, else `m[camel]`.
pub open spec fn get_key_spec(m: Seq<(String, JsonValue)>, snake: Seq<char>, camel: Seq<char>) -> Option<
    JsonValue,
> {
    match member_of(m, snake) {
        Some(v) => Some(v),
        None => member_of(m, camel),
    }
}

/// A string value.
pub open spec fn str_opt(v: Option<JsonValue>) -> Option<Seq<char>> {
    match v {
        Some(JsonValue::Str(s)) => Some(s@),
        _ => None,
    }
}

/// A number as a 64-bit integer (floats truncated).
pub open spec fn i64_opt(v: Option<JsonValue>) -> Option<i64> {
    match v {
        Some(JsonValue::Number(n)) => Some(crate::json::lossy_spec(n)),
        _ => None,
    }
}

/// `o` unless it is the empty string.
pub open spec fn nonempty(o: Option<Seq<char>>) -> Option<Seq<char>> {
    match o {
        Some(s) => if s.len() > 0 {
            Some(s)
        } else {
            None
        },
        None => None,
    }
}

pub open spec fn deref_opt(v: Option<&JsonValue>) -> Option<JsonValue> {
    match v {
        Some(x) => Some(*x),
        None => None,
    }
}

pub open spec fn view_opt(o: Option<String>) -> Option<Seq<char>> {
    match o {
        Some(s) => Some(s@),
        None => None,
    }
}

/// `m[snake]` or `m[camel]`.
pub fn get_key<'a>(m: &'a Vec<(String, JsonValue)>, snake: &str, camel: &str) -> (r: Option<
    &'a JsonValue,
>)
    ensures
        deref_opt(r) == get_key_spec(m@, snake@, camel@),
{
    match member(m, snake) {
        Some(v) => Some(v),
        None => member(m, camel),
    }
}

/// The string, if `v` is one.
pub fn as_string(v: Option<&JsonValue>) -> (r: Option<String>)
    ensures
        view_opt(r) == str_opt(deref_opt(v)),
{
    match v {
        Some(JsonValue::Str(s)) => Some(copy_string(s.as_str())),
        _ => None,
    }
}

/// The number as `i64`, if `v` is one (floats truncated toward zero).
pub fn as_i64(v: Option<&JsonValue>) -> (r: Option<i64>)
    ensures
        r == i64_opt(deref_opt(v)),
{
    match v {
        Some(JsonValue::Number(n)) => Some(n.lossy_i64()),
        _ => None,
    }
}

fn nonempty_string(o: Option<String>) -> (r: Option<String>)
    ensures
        view_opt(r) == nonempty(view_opt(o)),
{
    match o {
        Some(s) => {
            if s.as_str().is_empty() {
                None
            } else {
                Some(s)
            }
        },
        None => None,
    }
}

fn malformed(message: &str) -> (r: TwoKeyError)
    ensures
        r.code == ErrorCode::LicenseMalformed,
        r.message@ == message@,
{
    TwoKeyError::new(ErrorCode::LicenseMalformed, message)
}

/// A malformed-license error with message `m`.
pub open spec fn malformed_with(e: TwoKeyError, m: Seq<char>) -> bool {
    e.code == ErrorCode::LicenseMalformed && e.message@ == m
}

// ---------------------------------------------------------------------------
// Paying party
// ---------------------------------------------------------------------------

/// Paying party (organization) of a license.
#[derive(Clone, Debug, PartialEq, Eq)]
pub struct PayingParty {
    pub id: String,
    pub identity_provider: String,
    pub identity_subject: String,
    pub billing_email: String,
    pub organization_name: Option<String>,
}

pub struct PayingPartyV {
    pub id: Seq<char>,
    pub identity_provider: Seq<char>,
    pub identity_subject: Seq<char>,
    pub billing_email: Seq<char>,
    pub organization_name: Option<Seq<char>>,
}

impl View for PayingParty {
    type V = PayingPartyV;

    open spec fn view(&self) -> PayingPartyV {
        PayingPartyV {
            id: self.id@,
            identity_provider: self.identity_provider@,
            identity_subject: self.identity_subject@,
            billing_email: self.billing_email@,
            organization_name: view_opt(self.organization_name),
        }
    }
}

/// The paying party an object describes, or the reason it does not.
pub open spec fn paying_party_spec(v: JsonValue) -> Result<PayingPartyV, Seq<char>> {
    match v {
        JsonValue::Object(m) => {
            let m = m@;
            let id = nonempty(str_opt(get_key_spec(m, "id"@, "id"@)));
            let email = str_opt(get_key_spec(m, "billing_email"@, "billingEmail"@));
            let provider = nonempty(str_opt(get_key_spec(m, "identity_provider"@, "identityProvider"@)));
            let subject = nonempty(str_opt(get_key_spec(m, "identity_subject"@, "identitySubject"@)));
            let sso = nonempty(str_opt(get_key_spec(m, "sso_id"@, "ssoId"@)));
            if id is None {
                Err("paying_party.id required"@)
            } else if email is None {
                Err("paying_party.billing_email required"@)
            } else if provider is None || subject is None {
                match sso {
                    Some(s) => Ok(
                        PayingPartyV {
                            id: id->0,
                            identity_provider: "legacy"@,
                            identity_subject: s,
                            billing_email: email->0,
                            organization_name: str_opt(
                                get_key_spec(m, "organization_name"@, "organizationName"@),
                            ),
                        },
                    ),
                    None => Err(
                        "paying_party: identity_provider and identity_subject required (or legacy sso_id)"@,
                    ),
                }
            } else {
                Ok(
                    PayingPartyV {
                        id: id->0,
                        identity_provider: provider->0,
                        identity_subject: subject->0,
                        billing_email: email->0,
                        organization_name: str_opt(
                            get_key_spec(m, "organization_name"@, "organizationName"@),
                        ),
                    },
                )
            }
        },
        _ => Err("paying_party object required"@),
    }
}

impl PayingParty {
    /// Reads a paying party; the identity falls back to a legacy `sso_id`.
    pub fn from_value(v: &JsonValue) -> (r: TwoKeyResult<PayingParty>)
        ensures
            match r {
                Ok(p) => paying_party_spec(*v) == Ok::<PayingPartyV, Seq<char>>(p@),
                Err(e) => paying_party_spec(*v) matches Err(m) && malformed_with(e, m),
            },
    {
        let m = match v {
            JsonValue::Object(m) => m,
            _ => return Err(malformed("paying_party object required")),
        };
        let id = match nonempty_string(as_string(get_key(m, "id", "id"))) {
            Some(s) => s,
            None => return Err(malformed("paying_party.id required")),
        };
        let billing_email = match as_string(get_key(m, "billing_email", "billingEmail")) {
            Some(s) => s,
            None => return Err(malformed("paying_party.billing_email required")),
        };
        let provider = nonempty_string(as_string(get_key(m, "identity_provider", "identityProvider")));
        let subject = nonempty_string(as_string(get_key(m, "identity_subject", "identitySubject")));
        let sso = nonempty_string(as_string(get_key(m, "sso_id", "ssoId")));
        let (identity_provider, identity_subject) = match (provider, subject, sso) {
            (Some(p), Some(s), _) => (p, s),
            (_, _, Some(s)) => (copy_string("legacy"), s),
            _ => {
                return Err(
                    malformed(
                        "paying_party: identity_provider and identity_subject required (or legacy sso_id)",
                    ),
                )
            },
        };
        let organization_name = as_string(get_key(m, "organization_name", "organizationName"));
        Ok(PayingParty { id, identity_provider, identity_subject, billing_email, organization_name })
    }
}

// ---------------------------------------------------------------------------
// Subscription status
// ---------------------------------------------------------------------------

/// Entitlement class of a subscription status string.
#[derive(Clone, Copy, Debug, PartialEq, Eq, Structural)]
pub enum SubscriptionStatus {
    Active,
    Trialing,
    Other,
}

/// The class of a status string, ignoring ASCII case.
pub open spec fn status_spec(s: Seq<char>) -> SubscriptionStatus {
    if lower_seq(s) == "active"@ {
        SubscriptionStatus::Active
    } else if lower_seq(s) == "trialing"@ {
        SubscriptionStatus::Trialing
    } else {
        SubscriptionStatus::Other
    }
}

impl SubscriptionStatus {
    /// Classifies a server status string.
    pub fn parse(s: &str) -> (r: SubscriptionStatus)
        ensures
            r == status_spec(s@),
    {
        let l = lower_chars(&chars_of(s));
        if crate::text::chars_eq(&l, &chars_of("active")) {
            SubscriptionStatus::Active
        } else if crate::text::chars_eq(&l, &chars_of("trialing")) {
            SubscriptionStatus::Trialing
        } else {
            SubscriptionStatus::Other
        }
    }

    /// Active and trialing subscriptions are entitled.
    pub fn is_entitled(self) -> (r: bool)
        ensures
            r == (self == SubscriptionStatus::Active || self == SubscriptionStatus::Trialing),
    {
        match self {
            SubscriptionStatus::Active | SubscriptionStatus::Trialing => true,
            SubscriptionStatus::Other => false,
        }
    }
}

// ---------------------------------------------------------------------------
// Offerings
// ---------------------------------------------------------------------------

/// An offering granted inside a subscription.
#[derive(Debug)]
pub struct LicenseOfferingClaim {
    pub offering_id: String,
    pub offering_code: String,
    pub product_id: String,
    pub product_name: Option<String>,
    pub units: i64,
    /// Resource map, as the members of a JSON object.
    pub resources: Vec<(String, JsonValue)>,
}

pub struct OfferingV {
    pub offering_id: Seq<char>,
    pub offering_code: Seq<char>,
    pub product_id: Seq<char>,
    pub product_name: Option<Seq<char>>,
    pub units: i64,
    pub resources: Seq<(String, JsonValue)>,
}

impl View for LicenseOfferingClaim {
    type V = OfferingV;

    open spec fn view(&self) -> OfferingV {
        OfferingV {
            offering_id: self.offering_id@,
            offering_code: self.offering_code@,
            product_id: self.product_id@,
            product_name: view_opt(self.product_name),
            units: self.units,
            resources: self.resources@,
        }
    }
}

/// `o`, or 1, and at least 1.
pub open spec fn at_least_one(o: Option<i64>) -> i64 {
    match o {
        Some(n) => if n < 1 {
            1
        } else {
            n
        },
        None => 1,
    }
}

/// The offering an object describes, or the reason it does not.
pub open spec fn offering_spec(v: JsonValue) -> Result<OfferingV, Seq<char>> {
    match v {
        JsonValue::Object(m) => {
            let m = m@;
            let id = nonempty(str_opt(get_key_spec(m, "offering_id"@, "offeringId"@)));
            let code = nonempty(str_opt(get_key_spec(m, "offering_code"@, "offeringCode"@)));
            let product = nonempty(str_opt(get_key_spec(m, "product_id"@, "productId"@)));
            if id is None {
                Err("offerings[].offering_id required"@)
            } else if code is None {
                Err("offerings[].offering_code required"@)
            } else if product is None {
                Err("offerings[].product_id required"@)
            } else {
                Ok(
                    OfferingV {
                        offering_id: id->0,
                        offering_code: code->0,
                        product_id: product->0,
                        product_name: str_opt(get_key_spec(m, "product_name"@, "productName"@)),
                        units: at_least_one(i64_opt(get_key_spec(m, "units"@, "units"@))),
                        resources: match member_of(m, "resources"@) {
                            Some(JsonValue::Object(r)) => r@,
                            _ => Seq::empty(),
                        },
                    },
                )
            }
        },
        _ => Err("offering must be an object"@),
    }
}

/// The add-on code in a resource map: `addon_code` when it is a string,
/// otherwise `addonCode`; empty counts as none.
pub open spec fn addon_code_spec(resources: Seq<(String, JsonValue)>) -> Option<Seq<char>> {
    let a = str_opt(member_of(resources, "addon_code"@));
    nonempty(
        if a is Some {
            a
        } else {
            str_opt(member_of(resources, "addonCode"@))
        },
    )
}

fn at_least_one_exec(o: Option<i64>) -> (r: i64)
    ensures
        r == at_least_one(o),
{
    match o {
        Some(n) => if n < 1 {
            1
        } else {
            n
        },
        None => 1,
    }
}

impl LicenseOfferingClaim {
    /// Reads an offering, taking its resource map out of `v`.
    pub fn from_value(v: JsonValue) -> (r: TwoKeyResult<LicenseOfferingClaim>)
        ensures
            match r {
                Ok(o) => offering_spec(v) == Ok::<OfferingV, Seq<char>>(o@),
                Err(e) => offering_spec(v) matches Err(m) && malformed_with(e, m),
            },
    {
        let ghost orig = v;
        let mut m = match v {
            JsonValue::Object(m) => m,
            _ => return Err(malformed("offering must be an object")),
        };
        let ghost m0 = m@;
        let offering_id = match nonempty_string(as_string(get_key(&m, "offering_id", "offeringId"))) {
            Some(s) => s,
            None => return Err(malformed("offerings[].offering_id required")),
        };
        let offering_code = match nonempty_string(
            as_string(get_key(&m, "offering_code", "offeringCode")),
        ) {
            Some(s) => s,
            None => return Err(malformed("offerings[].offering_code required")),
        };
        let product_id = match nonempty_string(as_string(get_key(&m, "product_id", "productId"))) {
            Some(s) => s,
            None => return Err(malformed("offerings[].product_id required")),
        };
        let product_name = as_string(get_key(&m, "product_name", "productName"));
        let units = at_least_one_exec(as_i64(get_key(&m, "units", "units")));
        let resources = match member_index(&m, "resources") {
            Some(i) => {
                let (_, value) = m.remove(i);
                match value {
                    JsonValue::Object(r) => r,
                    _ => Vec::new(),
                }
            },
            None => Vec::new(),
        };
        let out = LicenseOfferingClaim {
            offering_id,
            offering_code,
            product_id,
            product_name,
            units,
            resources,
        };
        assert(out@.resources =~= match member_of(m0, "resources"@) {
            Some(JsonValue::Object(r)) => r@,
            _ => Seq::<(String, JsonValue)>::empty(),
        });
        Ok(out)
    }

    /// The add-on code in the resource map, if any.
    pub fn addon_code(&self) -> (r: Option<String>)
        ensures
            view_opt(r) == addon_code_spec(self.resources@),
    {
        let a = as_string(member(&self.resources, "addon_code"));
        let b = match a {
            Some(s) => Some(s),
            None => as_string(member(&self.resources, "addonCode")),
        };
        nonempty_string(b)
    }
}


// ---------------------------------------------------------------------------
// Subscriptions
// ---------------------------------------------------------------------------

/// One element of the license's `subscriptions`.
#[derive(Debug)]
pub struct BillingSubscription {
    pub subscription_id: String,
    pub plan_id: String,
    pub product_id: String,
    pub plan_name: String,
    pub product_name: String,
    pub quantity: i64,
    pub subscription_status: String,
    pub valid_until_unix: i64,
    pub valid_from_unix: Option<i64>,
    pub billing_interval: Option<String>,
    pub addon_code: Option<String>,
    pub member_id: Option<String>,
    pub max_devices: Option<i64>,
    pub offerings: Vec<LicenseOfferingClaim>,
    pub device_skis: Vec<String>,
    pub using_party_identity_provider: Option<String>,
    pub using_party_identity_subject: Option<String>,
    pub using_party_email: Option<String>,
    pub assigned_user_party_id: Option<String>,
}

pub struct SubscriptionV {
    pub subscription_id: Seq<char>,
    pub plan_id: Seq<char>,
    pub product_id: Seq<char>,
    pub plan_name: Seq<char>,
    pub product_name: Seq<char>,
    pub quantity: i64,
    pub subscription_status: Seq<char>,
    pub valid_until_unix: i64,
    pub valid_from_unix: Option<i64>,
    pub billing_interval: Option<Seq<char>>,
    pub addon_code: Option<Seq<char>>,
    pub member_id: Option<Seq<char>>,
    pub max_devices: Option<i64>,
    pub offerings: Seq<OfferingV>,
    pub device_skis: Seq<Seq<char>>,
    pub using_party_identity_provider: Option<Seq<char>>,
    pub using_party_identity_subject: Option<Seq<char>>,
    pub using_party_email: Option<Seq<char>>,
    pub assigned_user_party_id: Option<Seq<char>>,
}

pub open spec fn offerings_view(v: Seq<LicenseOfferingClaim>) -> Seq<OfferingV> {
    v.map_values(|o: LicenseOfferingClaim| o@)
}

pub open spec fn strings_view(v: Seq<String>) -> Seq<Seq<char>> {
    v.map_values(|s: String| s@)
}

impl View for BillingSubscription {
    type V = SubscriptionV;

    open spec fn view(&self) -> SubscriptionV {
        SubscriptionV {
            subscription_id: self.subscription_id@,
            plan_id: self.plan_id@,
            product_id: self.product_id@,
            plan_name: self.plan_name@,
            product_name: self.product_name@,
            quantity: self.quantity,
            subscription_status: self.subscription_status@,
            valid_until_unix: self.valid_until_unix,
            valid_from_unix: self.valid_from_unix,
            billing_interval: view_opt(self.billing_interval),
            addon_code: view_opt(self.addon_code),
            member_id: view_opt(self.member_id),
            max_devices: self.max_devices,
            offerings: offerings_view(self.offerings@),
            device_skis: strings_view(self.device_skis@),
            using_party_identity_provider: view_opt(self.using_party_identity_provider),
            using_party_identity_subject: view_opt(self.using_party_identity_subject),
            using_party_email: view_opt(self.using_party_email),
            assigned_user_party_id: view_opt(self.assigned_user_party_id),
        }
    }
}

/// Offerings read in order; the first failure decides.
pub open spec fn offerings_spec(items: Seq<JsonValue>) -> Result<Seq<OfferingV>, Seq<char>>
    decreases items.len(),
{
    if items.len() == 0 {
        Ok(Seq::empty())
    } else {
        match offering_spec(items[0]) {
            Err(m) => Err(m),
            Ok(o) => match offerings_spec(items.drop_first()) {
                Err(m) => Err(m),
                Ok(rest) => Ok(seq![o] + rest),
            },
        }
    }
}

/// Non-empty `ski` strings of the device objects, in order.
pub open spec fn device_skis_spec(items: Seq<JsonValue>) -> Seq<Seq<char>>
    decreases items.len(),
{
    if items.len() == 0 {
        Seq::empty()
    } else {
        let rest = device_skis_spec(items.drop_first());
        match items[0] {
            JsonValue::Object(o) => match nonempty(str_opt(member_of(o@, "ski"@))) {
                Some(s) => seq![s] + rest,
                None => rest,
            },
            _ => rest,
        }
    }
}

/// The first offering add-on code.
pub open spec fn first_addon(offs: Seq<OfferingV>) -> Option<Seq<char>>
    decreases offs.len(),
{
    if offs.len() == 0 {
        None
    } else if addon_code_spec(offs[0].resources) is Some {
        addon_code_spec(offs[0].resources)
    } else {
        first_addon(offs.drop_first())
    }
}

/// `s` unless it is blank.
pub open spec fn not_blank(o: Option<Seq<char>>) -> Option<Seq<char>> {
    match o {
        Some(s) => if trim_seq(s).len() > 0 {
            Some(s)
        } else {
            None
        },
        None => None,
    }
}

/// The subscription an object describes, or the reason it does not.
pub open spec fn subscription_spec(v: JsonValue) -> Result<SubscriptionV, Seq<char>> {
    match v {
        JsonValue::Object(mm) => {
            let m = mm@;
            let until = i64_opt(get_key_spec(m, "valid_until"@, "validUntil"@));
            let offs = match member_of(m, "offerings"@) {
                Some(JsonValue::Array(a)) => offerings_spec(a@),
                _ => Ok(Seq::empty()),
            };
            if until is None {
                Err("subscriptions[].valid_until required (Unix timestamp)"@)
            } else if offs is Err {
                Err(offs->Err_0)
            } else {
                let offs = offs->Ok_0;
                let pid0 = match str_opt(get_key_spec(m, "product_id"@, "productId"@)) {
                    Some(s) => s,
                    None => Seq::empty(),
                };
                let pn0 = match str_opt(get_key_spec(m, "product_name"@, "productName"@)) {
                    Some(s) => s,
                    None => Seq::empty(),
                };
                let pid = if pid0.len() == 0 && offs.len() > 0 {
                    offs[0].product_id
                } else {
                    pid0
                };
                let pn = if pn0.len() == 0 && offs.len() > 0 {
                    match offs[0].product_name {
                        Some(n) => n,
                        None => Seq::empty(),
                    }
                } else {
                    pn0
                };
                let sub_id = str_opt(get_key_spec(m, "subscription_id"@, "subscriptionId"@));
                let plan_id = str_opt(get_key_spec(m, "plan_id"@, "planId"@));
                let plan_name = str_opt(get_key_spec(m, "plan_name"@, "planName"@));
                let status = str_opt(get_key_spec(m, "subscription_status"@, "subscriptionStatus"@));
                let own_addon = nonempty(str_opt(get_key_spec(m, "addon_code"@, "addonCode"@)));
                if pid.len() == 0 {
                    Err("subscriptions[].product_id required"@)
                } else if pn.len() == 0 && offs.len() == 0 {
                    Err("subscriptions[].product_name required"@)
                } else if sub_id is None {
                    Err("subscriptions[].subscription_id required"@)
                } else if plan_id is None {
                    Err("subscriptions[].plan_id required"@)
                } else if plan_name is None {
                    Err("subscriptions[].plan_name required"@)
                } else if status is None {
                    Err("subscriptions[].subscription_status required"@)
                } else {
                    Ok(
                        SubscriptionV {
                            subscription_id: sub_id->0,
                            plan_id: plan_id->0,
                            product_id: pid,
                            plan_name: plan_name->0,
                            product_name: if pn.len() == 0 {
                                pid
                            } else {
                                pn
                            },
                            quantity: at_least_one(i64_opt(get_key_spec(m, "quantity"@, "quantity"@))),
                            subscription_status: status->0,
                            valid_until_unix: until->0,
                            valid_from_unix: i64_opt(get_key_spec(m, "valid_from"@, "validFrom"@)),
                            billing_interval: not_blank(
                                str_opt(get_key_spec(m, "billing_interval"@, "billingInterval"@)),
                            ),
                            addon_code: if own_addon is Some {
                                own_addon
                            } else {
                                first_addon(offs)
                            },
                            member_id: nonempty(str_opt(get_key_spec(m, "member_id"@, "memberId"@))),
                            max_devices: i64_opt(get_key_spec(m, "max_devices"@, "maxDevices"@)),
                            offerings: offs,
                            device_skis: match member_of(m, "devices"@) {
                                Some(JsonValue::Array(a)) => device_skis_spec(a@),
                                _ => Seq::empty(),
                            },
                            using_party_identity_provider: nonempty(
                                str_opt(
                                    get_key_spec(
                                        m,
                                        "using_party_identity_provider"@,
                                        "usingPartyIdentityProvider"@,
                                    ),
                                ),
                            ),
                            using_party_identity_subject: nonempty(
                                str_opt(
                                    get_key_spec(
                                        m,
                                        "using_party_identity_subject"@,
                                        "usingPartyIdentitySubject"@,
                                    ),
                                ),
                            ),
                            using_party_email: nonempty(
                                str_opt(get_key_spec(m, "using_party_email"@, "usingPartyEmail"@)),
                            ),
                            assigned_user_party_id: nonempty(
                                str_opt(
                                    get_key_spec(m, "assigned_user_party_id"@, "assignedUserPartyId"@),
                                ),
                            ),
                        },
                    )
                }
            }
        },
        _ => Err("subscription must be an object"@),
    }
}

fn device_skis_exec(items: &Vec<JsonValue>) -> (r: Vec<String>)
    ensures
        strings_view(r@) == device_skis_spec(items@),
{
    let mut out: Vec<String> = Vec::new();
    let mut i: usize = 0;
    assert(items@.skip(0) =~= items@);
    while i < items.len()
        invariant
            i <= items@.len(),
            device_skis_spec(items@) == strings_view(out@) + device_skis_spec(items@.skip(i as int)),
        decreases items.len() - i,
    {
        let ghost rest = items@.skip(i as int);
        assert(rest.drop_first() =~= items@.skip(i + 1));
        assert(rest[0] == items@[i as int]);
        let ghost before = strings_view(out@);
        match &items[i] {
            JsonValue::Object(o) => {
                match nonempty_string(as_string(member(o, "ski"))) {
                    Some(s) => {
                        let ghost sv = s@;
                        out.push(s);
                        proof {
                            assert(strings_view(out@) =~= before.push(sv));
                            assert(before + (seq![sv] + device_skis_spec(items@.skip(i + 1)))
                                =~= before.push(sv) + device_skis_spec(items@.skip(i + 1)));
                        }
                    },
                    None => {},
                }
            },
            _ => {},
        }
        i += 1;
    }
    assert(items@.skip(i as int) =~= Seq::<JsonValue>::empty());
    assert(strings_view(out@) + Seq::<Seq<char>>::empty() =~= strings_view(out@));
    out
}

proof fn lemma_offerings_step(items: Seq<JsonValue>, o: OfferingV)
    requires
        items.len() > 0,
        offering_spec(items[0]) == Ok::<OfferingV, Seq<char>>(o),
    ensures
        offerings_spec(items) == match offerings_spec(items.drop_first()) {
            Ok(t) => Ok(seq![o] + t),
            Err(m) => Err::<Seq<OfferingV>, Seq<char>>(m),
        },
{
}

fn offerings_exec(input: Vec<JsonValue>) -> (r: TwoKeyResult<Vec<LicenseOfferingClaim>>)
    ensures
        match r {
            Ok(v) => offerings_spec(input@) == Ok::<Seq<OfferingV>, Seq<char>>(offerings_view(v@)),
            Err(e) => offerings_spec(input@) matches Err(m) && malformed_with(e, m),
        },
{
    let ghost orig = input@;
    let mut items = input;
    let mut out: Vec<LicenseOfferingClaim> = Vec::new();
    while items.len() > 0
        invariant
            orig == input@,
            offerings_spec(orig) == match offerings_spec(items@) {
                Ok(t) => Ok(offerings_view(out@) + t),
                Err(m) => Err::<Seq<OfferingV>, Seq<char>>(m),
            },
        decreases items.len(),
    {
        let ghost cur = items@;
        let item = items.remove(0);
        assert(items@ =~= cur.drop_first());
        match LicenseOfferingClaim::from_value(item) {
            Err(e) => {
                assert(offerings_spec(cur) == Err::<Seq<OfferingV>, Seq<char>>(e.message@));
                return Err(e);
            },
            Ok(o) => {
                let ghost ov = o@;
                let ghost before = offerings_view(out@);
                proof {
                    lemma_offerings_step(cur, ov);
                }
                out.push(o);
                proof {
                    assert(offerings_view(out@) =~= before.push(ov));
                    match offerings_spec(items@) {
                        Ok(t) => {
                            assert(before + (seq![ov] + t) =~= before.push(ov) + t);
                        },
                        Err(_) => {},
                    }
                }
            },
        }
    }
    assert(offerings_view(out@) + Seq::<OfferingV>::empty() =~= offerings_view(out@));
    Ok(out)
}

fn first_addon_exec(offs: &Vec<LicenseOfferingClaim>) -> (r: Option<String>)
    ensures
        view_opt(r) == first_addon(offerings_view(offs@)),
{
    let mut i: usize = 0;
    assert(offerings_view(offs@).skip(0) =~= offerings_view(offs@));
    while i < offs.len()
        invariant
            i <= offs@.len(),
            first_addon(offerings_view(offs@)) == first_addon(offerings_view(offs@).skip(i as int)),
        decreases offs.len() - i,
    {
        let ghost rest = offerings_view(offs@).skip(i as int);
        assert(rest[0] == offs@[i as int]@);
        assert(rest.drop_first() =~= offerings_view(offs@).skip(i + 1));
        match offs[i].addon_code() {
            Some(a) => return Some(a),
            None => {},
        }
        i += 1;
    }
    None
}

fn required(m: &Vec<(String, JsonValue)>, snake: &str, camel: &str) -> (r: Option<String>)
    ensures
        view_opt(r) == str_opt(get_key_spec(m@, snake@, camel@)),
{
    as_string(get_key(m, snake, camel))
}

fn not_blank_exec(o: Option<String>) -> (r: Option<String>)
    ensures
        view_opt(r) == not_blank(view_opt(o)),
{
    match o {
        Some(s) => if trim_chars(&chars_of(s.as_str())).len() > 0 {
            Some(s)
        } else {
            None
        },
        None => None,
    }
}

impl BillingSubscription {
    /// Reads a subscription, taking its offerings out of `v`. Offerings may
    /// supply the product id and name; the first failure, in the order
    /// valid_until, offerings, product, required ids, decides the error.
    #[verifier::rlimit(40)]
    pub fn from_value(v: JsonValue) -> (r: TwoKeyResult<BillingSubscription>)
        ensures
            match r {
                Ok(s) => subscription_spec(v) == Ok::<SubscriptionV, Seq<char>>(s@),
                Err(e) => subscription_spec(v) matches Err(m) && malformed_with(e, m),
            },
    {
        let ghost vv = v;
        let mut m = match v {
            JsonValue::Object(m) => m,
            _ => return Err(malformed("subscription must be an object")),
        };
        let ghost m0 = m@;
        let valid_until_unix = match as_i64(get_key(&m, "valid_until", "validUntil")) {
            Some(n) => n,
            None => return Err(malformed("subscriptions[].valid_until required (Unix timestamp)")),
        };
        let pid0 = as_string(get_key(&m, "product_id", "productId"));
        let pn0 = as_string(get_key(&m, "product_name", "productName"));
        let device_skis = match member(&m, "devices") {
            Some(JsonValue::Array(a)) => device_skis_exec(a),
            _ => Vec::new(),
        };
        let own_addon = nonempty_string(as_string(get_key(&m, "addon_code", "addonCode")));
        let sub_id = required(&m, "subscription_id", "subscriptionId");
        let plan_id = required(&m, "plan_id", "planId");
        let plan_name = required(&m, "plan_name", "planName");
        let status = required(&m, "subscription_status", "subscriptionStatus");
        let quantity = at_least_one_exec(as_i64(get_key(&m, "quantity", "quantity")));
        let valid_from_unix = as_i64(get_key(&m, "valid_from", "validFrom"));
        let billing_interval = not_blank_exec(as_string(get_key(&m, "billing_interval", "billingInterval")));
        let member_id = nonempty_string(as_string(get_key(&m, "member_id", "memberId")));
        let max_devices = as_i64(get_key(&m, "max_devices", "maxDevices"));
        let up_provider = nonempty_string(
            as_string(get_key(&m, "using_party_identity_provider", "usingPartyIdentityProvider")),
        );
        let up_subject = nonempty_string(
            as_string(get_key(&m, "using_party_identity_subject", "usingPartyIdentitySubject")),
        );
        let up_email = nonempty_string(as_string(get_key(&m, "using_party_email", "usingPartyEmail")));
        let assigned = nonempty_string(
            as_string(get_key(&m, "assigned_user_party_id", "assignedUserPartyId")),
        );
        let offerings: Vec<LicenseOfferingClaim> = match member_index(&m, "offerings") {
            Some(i) => {
                let (_, value) = m.remove(i);
                match value {
                    JsonValue::Array(items) => offerings_exec(items)?,
                    _ => Vec::new(),
                }
            },
            None => Vec::new(),
        };
        let ghost offs = offerings_view(offerings@);
        let product_id = match pid0 {
            Some(s) => if s.as_str().is_empty() && offerings.len() > 0 {
                copy_string(offerings[0].product_id.as_str())
            } else {
                s
            },
            None => if offerings.len() > 0 {
                copy_string(offerings[0].product_id.as_str())
            } else {
                copy_string("")
            },
        };
        let product_name1 = match pn0 {
            Some(s) => if s.as_str().is_empty() && offerings.len() > 0 {
                match &offerings[0].product_name {
                    Some(n) => copy_string(n.as_str()),
                    None => copy_string(""),
                }
            } else {
                s
            },
            None => if offerings.len() > 0 {
                match &offerings[0].product_name {
                    Some(n) => copy_string(n.as_str()),
                    None => copy_string(""),
                }
            } else {
                copy_string("")
            },
        };
        proof {
            reveal_strlit("");
        }
        if product_id.as_str().is_empty() {
            return Err(malformed("subscriptions[].product_id required"));
        }
        if product_name1.as_str().is_empty() && offerings.len() == 0 {
            return Err(malformed("subscriptions[].product_name required"));
        }
        let subscription_id = match sub_id {
            Some(s) => s,
            None => return Err(malformed("subscriptions[].subscription_id required")),
        };
        let plan_id = match plan_id {
            Some(s) => s,
            None => return Err(malformed("subscriptions[].plan_id required")),
        };
        let plan_name = match plan_name {
            Some(s) => s,
            None => return Err(malformed("subscriptions[].plan_name required")),
        };
        let subscription_status = match status {
            Some(s) => s,
            None => return Err(malformed("subscriptions[].subscription_status required")),
        };
        let addon_code = match own_addon {
            Some(a) => Some(a),
            None => first_addon_exec(&offerings),
        };
        let product_name = if product_name1.as_str().is_empty() {
            copy_string(product_id.as_str())
        } else {
            product_name1
        };
        let ghost sv = subscription_spec(vv);
        assert(sv is Ok);
        let out = BillingSubscription {
            subscription_id,
            plan_id,
            product_id,
            plan_name,
            product_name,
            quantity,
            subscription_status,
            valid_until_unix,
            valid_from_unix,
            billing_interval,
            addon_code,
            member_id,
            max_devices,
            offerings,
            device_skis,
            using_party_identity_provider: up_provider,
            using_party_identity_subject: up_subject,
            using_party_email: up_email,
            assigned_user_party_id: assigned,
        };
        assert(out@.subscription_id == sv->Ok_0.subscription_id);
        assert(out@.product_id == sv->Ok_0.product_id);
        assert(out@.product_name == sv->Ok_0.product_name);
        assert(out@.offerings == sv->Ok_0.offerings);
        assert(out@.device_skis == sv->Ok_0.device_skis);
        assert(out@.addon_code == sv->Ok_0.addon_code);
        Ok(out)
    }

    /// Active or trialing.
    pub fn is_active(&self) -> (r: bool)
        ensures
            r == (status_spec(self.subscription_status@) != SubscriptionStatus::Other),
    {
        SubscriptionStatus::parse(self.subscription_status.as_str()).is_entitled()
    }

    /// A seat that lists no devices allows any; otherwise `local_ski` must be
    /// listed.
    pub fn allows_device(&self, local_ski: &str) -> (r: bool)
        ensures
            r == (self.device_skis@.len() == 0 || strings_view(self.device_skis@).contains(
                local_ski@,
            )),
    {
        if self.device_skis.len() == 0 {
            return true;
        }
        let k = chars_of(local_ski);
        let mut i: usize = 0;
        while i < self.device_skis.len()
            invariant
                i <= self.device_skis@.len(),
                k@ == local_ski@,
                forall|j: int| 0 <= j < i ==> strings_view(self.device_skis@)[j] != local_ski@,
            decreases self.device_skis.len() - i,
        {
            if crate::text::chars_eq(&chars_of(self.device_skis[i].as_str()), &k) {
                assert(strings_view(self.device_skis@)[i as int] == local_ski@);
                return true;
            }
            i += 1;
        }
        false
    }
}


// ---------------------------------------------------------------------------
// License payload
// ---------------------------------------------------------------------------

/// Expiry used when a token carries no `exp`: 2100-01-01 UTC.
pub const DEFAULT_EXPIRES_AT_UNIX: i64 = 4102444800;

/// The decoded claims of a license token.
#[derive(Debug)]
pub struct LicensePayload {
    pub payload_version: i64,
    pub expires_at_unix: i64,
    pub issued_at_unix: Option<i64>,
    pub issuer: Option<String>,
    pub audience: Option<String>,
    pub paying_party: PayingParty,
    pub subscriptions: Vec<BillingSubscription>,
}

pub struct PayloadV {
    pub payload_version: i64,
    pub expires_at_unix: i64,
    pub issued_at_unix: Option<i64>,
    pub issuer: Option<Seq<char>>,
    pub audience: Option<Seq<char>>,
    pub paying_party: PayingPartyV,
    pub subscriptions: Seq<SubscriptionV>,
}

pub open spec fn subscriptions_view(v: Seq<BillingSubscription>) -> Seq<SubscriptionV> {
    v.map_values(|s: BillingSubscription| s@)
}

impl View for LicensePayload {
    type V = PayloadV;

    open spec fn view(&self) -> PayloadV {
        PayloadV {
            payload_version: self.payload_version,
            expires_at_unix: self.expires_at_unix,
            issued_at_unix: self.issued_at_unix,
            issuer: view_opt(self.issuer),
            audience: view_opt(self.audience),
            paying_party: self.paying_party@,
            subscriptions: subscriptions_view(self.subscriptions@),
        }
    }
}

/// Subscriptions read in order, numbered from `start`; the first failure
/// decides, prefixed with its index.
pub open spec fn subscriptions_spec(items: Seq<JsonValue>, start: int) -> Result<
    Seq<SubscriptionV>,
    Seq<char>,
>
    decreases items.len(),
{
    if items.len() == 0 {
        Ok(Seq::empty())
    } else {
        match subscription_spec(items[0]) {
            Err(m) => Err("subscriptions["@ + decimal_spec(start) + "]: "@ + m),
            Ok(s) => match subscriptions_spec(items.drop_first(), start + 1) {
                Err(m) => Err(m),
                Ok(rest) => Ok(seq![s] + rest),
            },
        }
    }
}

/// The audience: a string, or the first element of an array when a string.
pub open spec fn audience_spec(v: Option<JsonValue>) -> Option<Seq<char>> {
    match v {
        Some(JsonValue::Str(s)) => Some(s@),
        Some(JsonValue::Array(a)) => if a@.len() > 0 {
            str_opt(Some(a@[0]))
        } else {
            None
        },
        _ => None,
    }
}

/// The payload the claims describe, or the reason they do not.
pub open spec fn claims_spec(claims: JsonValue) -> Result<PayloadV, Seq<char>> {
    match claims {
        JsonValue::Object(mm) => {
            let m = mm@;
            let version = i64_opt(get_key_spec(m, "payload_version"@, "payloadVersion"@));
            let paying = get_key_spec(m, "paying_party"@, "payingParty"@);
            if version is None {
                Err("payload_version (number) required"@)
            } else if paying is None {
                Err("paying_party object required"@)
            } else {
                match paying_party_spec(paying->0) {
                    Err(e) => Err(e),
                    Ok(pp) => match member_of(m, "subscriptions"@) {
                        Some(JsonValue::Array(a)) => match subscriptions_spec(a@, 0) {
                            Err(e) => Err(e),
                            Ok(subs) => Ok(
                                PayloadV {
                                    payload_version: version->0,
                                    expires_at_unix: match i64_opt(member_of(m, "exp"@)) {
                                        Some(n) => n,
                                        None => DEFAULT_EXPIRES_AT_UNIX,
                                    },
                                    issued_at_unix: i64_opt(member_of(m, "iat"@)),
                                    issuer: str_opt(member_of(m, "iss"@)),
                                    audience: audience_spec(member_of(m, "aud"@)),
                                    paying_party: pp,
                                    subscriptions: subs,
                                },
                            ),
                        },
                        _ => Err("subscriptions array required"@),
                    },
                }
            }
        },
        _ => Err("Expected JSON object payload"@),
    }
}

/// Whether the subscription is active or trialing.
pub open spec fn sub_active(s: SubscriptionV) -> bool {
    status_spec(s.subscription_status) != SubscriptionStatus::Other
}

/// The device rule of a license: when any seat lists devices, the local
/// key must be listed on an active seat.
pub open spec fn allows_local_device_spec(subs: Seq<SubscriptionV>, ski: Seq<char>) -> bool {
    (forall|i: int| 0 <= i < subs.len() ==> (#[trigger] subs[i]).device_skis.len() == 0)
        || exists|i: int| 0 <= i < subs.len() && sub_active(#[trigger] subs[i]) && subs[i].device_skis.contains(ski)
}

/// A subscription without a product id of its own and without offerings is
/// refused for the missing product id (once its expiry is there).
pub proof fn law_subscription_needs_product_id(v: JsonValue)
    requires
        v is Object,
        i64_opt(get_key_spec(v->Object_0@, "valid_until"@, "validUntil"@)) is Some,
        match member_of(v->Object_0@, "offerings"@) {
            Some(JsonValue::Array(a)) => a@.len() == 0,
            _ => true,
        },
        match str_opt(get_key_spec(v->Object_0@, "product_id"@, "productId"@)) {
            Some(s) => s.len() == 0,
            None => true,
        },
    ensures
        subscription_spec(v) == Err::<SubscriptionV, Seq<char>>("subscriptions[].product_id required"@),
{
    let m = v->Object_0@;
    match member_of(m, "offerings"@) {
        Some(JsonValue::Array(a)) => {
            assert(offerings_spec(a@) == Ok::<Seq<OfferingV>, Seq<char>>(Seq::empty()));
        },
        _ => {},
    }
}

/// A subscription without a product id of its own takes the product of its
/// first offering, and its name from its own product name, else that
/// offering's, else the product id.
pub proof fn law_subscription_product_from_offering(v: JsonValue, offs: Seq<OfferingV>)
    requires
        v is Object,
        i64_opt(get_key_spec(v->Object_0@, "valid_until"@, "validUntil"@)) is Some,
        member_of(v->Object_0@, "offerings"@) matches Some(JsonValue::Array(a)) && offerings_spec(a@) == Ok::<
            Seq<OfferingV>,
            Seq<char>,
        >(offs),
        offs.len() > 0,
        offs[0].product_id.len() > 0,
        match str_opt(get_key_spec(v->Object_0@, "product_id"@, "productId"@)) {
            Some(s) => s.len() == 0,
            None => true,
        },
        str_opt(get_key_spec(v->Object_0@, "subscription_id"@, "subscriptionId"@)) is Some,
        str_opt(get_key_spec(v->Object_0@, "plan_id"@, "planId"@)) is Some,
        str_opt(get_key_spec(v->Object_0@, "plan_name"@, "planName"@)) is Some,
        str_opt(get_key_spec(v->Object_0@, "subscription_status"@, "subscriptionStatus"@)) is Some,
    ensures
        subscription_spec(v) matches Ok(s) && s.product_id == offs[0].product_id && s.product_name == {
            let own = match str_opt(get_key_spec(v->Object_0@, "product_name"@, "productName"@)) {
                Some(n) => n,
                None => Seq::<char>::empty(),
            };
            let theirs = match offs[0].product_name {
                Some(n) => n,
                None => Seq::<char>::empty(),
            };
            if own.len() > 0 {
                own
            } else if theirs.len() > 0 {
                theirs
            } else {
                offs[0].product_id
            }
        },
{
}

proof fn lemma_subscriptions_step(items: Seq<JsonValue>, start: int, s: SubscriptionV)
    requires
        items.len() > 0,
        subscription_spec(items[0]) == Ok::<SubscriptionV, Seq<char>>(s),
    ensures
        subscriptions_spec(items, start) == match subscriptions_spec(items.drop_first(), start + 1) {
            Ok(t) => Ok(seq![s] + t),
            Err(m) => Err::<Seq<SubscriptionV>, Seq<char>>(m),
        },
{
}

fn subscriptions_exec(input: Vec<JsonValue>) -> (r: TwoKeyResult<Vec<BillingSubscription>>)
    ensures
        match r {
            Ok(v) => subscriptions_spec(input@, 0) == Ok::<Seq<SubscriptionV>, Seq<char>>(
                subscriptions_view(v@),
            ),
            Err(e) => subscriptions_spec(input@, 0) matches Err(m) && malformed_with(e, m),
        },
{
    let ghost orig = input@;
    let mut items = input;
    let mut out: Vec<BillingSubscription> = Vec::new();
    let mut i: usize = 0;
    let n = items.len();
    assert(orig.len() == n);
    while items.len() > 0
        invariant
            orig == input@,
            i + items@.len() == orig.len(),
            orig.len() == n,
            subscriptions_spec(orig, 0) == match subscriptions_spec(items@, i as int) {
                Ok(t) => Ok(subscriptions_view(out@) + t),
                Err(m) => Err::<Seq<SubscriptionV>, Seq<char>>(m),
            },
        decreases items.len(),
    {
        let ghost cur = items@;
        let item = items.remove(0);
        assert(items@ =~= cur.drop_first());
        match BillingSubscription::from_value(item) {
            Err(e) => {
                let v = concat_chars(&chars_of("subscriptions["), &u64_decimal_chars(i as u64));
                assert(decimal_spec(i as int) == nat_decimal(i as nat));
                let v = concat_chars(&v, &chars_of("]: "));
                let v = concat_chars(&v, &chars_of(e.message.as_str()));
                return Err(malformed(string_of(&v).as_str()));
            },
            Ok(s) => {
                let ghost sv = s@;
                let ghost before = subscriptions_view(out@);
                proof {
                    lemma_subscriptions_step(cur, i as int, sv);
                }
                out.push(s);
                proof {
                    assert(subscriptions_view(out@) =~= before.push(sv));
                    match subscriptions_spec(items@, i + 1) {
                        Ok(t) => {
                            assert(before + (seq![sv] + t) =~= before.push(sv) + t);
                        },
                        Err(_) => {},
                    }
                }
            },
        }
        i += 1;
    }
    assert(subscriptions_view(out@) + Seq::<SubscriptionV>::empty() =~= subscriptions_view(out@));
    Ok(out)
}

impl LicensePayload {
    /// Reads the claims of a license token, taking them apart. The first
    /// failure, in the order version, paying party, subscriptions, decides.
    pub fn from_claims(claims: JsonValue) -> (r: TwoKeyResult<LicensePayload>)
        ensures
            match r {
                Ok(p) => claims_spec(claims) == Ok::<PayloadV, Seq<char>>(p@),
                Err(e) => claims_spec(claims) matches Err(m) && malformed_with(e, m),
            },
    {
        let ghost vv = claims;
        let mut m = match claims {
            JsonValue::Object(m) => m,
            _ => return Err(malformed("Expected JSON object payload")),
        };
        let payload_version = match as_i64(get_key(&m, "payload_version", "payloadVersion")) {
            Some(n) => n,
            None => return Err(malformed("payload_version (number) required")),
        };
        let expires_at_unix = match as_i64(member(&m, "exp")) {
            Some(n) => n,
            None => DEFAULT_EXPIRES_AT_UNIX,
        };
        let issued_at_unix = as_i64(member(&m, "iat"));
        let issuer = as_string(member(&m, "iss"));
        let audience = match member(&m, "aud") {
            Some(JsonValue::Str(s)) => Some(copy_string(s.as_str())),
            Some(JsonValue::Array(a)) => if a.len() > 0 {
                as_string(Some(&a[0]))
            } else {
                None
            },
            _ => None,
        };
        let paying_raw = match get_key(&m, "paying_party", "payingParty") {
            Some(p) => p,
            None => return Err(malformed("paying_party object required")),
        };
        let paying_party = PayingParty::from_value(paying_raw)?;
        let subscriptions = match member_index(&m, "subscriptions") {
            Some(i) => {
                let (_, value) = m.remove(i);
                match value {
                    JsonValue::Array(items) => subscriptions_exec(items)?,
                    _ => return Err(malformed("subscriptions array required")),
                }
            },
            None => return Err(malformed("subscriptions array required")),
        };
        Ok(
            LicensePayload {
                payload_version,
                expires_at_unix,
                issued_at_unix,
                issuer,
                audience,
                paying_party,
                subscriptions,
            },
        )
    }

    /// Whether the license has expired at `now_unix`.
    pub fn is_expired(&self, now_unix: i64) -> (r: bool)
        ensures
            r == (now_unix > self.expires_at_unix),
    {
        now_unix > self.expires_at_unix
    }

    /// The active or trialing subscriptions, in order.
    pub fn active_subscriptions(&self) -> (r: Vec<&BillingSubscription>)
        ensures
            r@.map_values(|s: &BillingSubscription| s@) == subscriptions_view(self.subscriptions@).filter(
                |s: SubscriptionV| sub_active(s),
            ),
    {
        let mut out: Vec<&BillingSubscription> = Vec::new();
        let mut i: usize = 0;
        while i < self.subscriptions.len()
            invariant
                i <= self.subscriptions@.len(),
                out@.map_values(|s: &BillingSubscription| s@) == subscriptions_view(
                    self.subscriptions@.take(i as int),
                ).filter(|s: SubscriptionV| sub_active(s)),
            decreases self.subscriptions.len() - i,
        {
            let ghost before = subscriptions_view(self.subscriptions@.take(i as int));
            let ghost after = subscriptions_view(self.subscriptions@.take(i + 1));
            assert(after =~= before.push(self.subscriptions@[i as int]@));
            proof {
                reveal(Seq::filter);
                assert(after.drop_last() =~= before);
                assert(after.last() == self.subscriptions@[i as int]@);
            }
            let s = &self.subscriptions[i];
            if s.is_active() {
                out.push(s);
                assert(out@.map_values(|s: &BillingSubscription| s@) =~= before.filter(|s: SubscriptionV| sub_active(s)).push(self.subscriptions@[i as int]@));
            }
            i += 1;
        }
        assert(self.subscriptions@.take(i as int) =~= self.subscriptions@);
        out
    }

    /// Whether this device (by SKI) may use the license: when any seat lists
    /// devices, the SKI must be listed on an active seat.
    pub fn allows_local_device(&self, local_ski: &str) -> (r: bool)
        ensures
            r == allows_local_device_spec(subscriptions_view(self.subscriptions@), local_ski@),
    {
        let ghost subs = subscriptions_view(self.subscriptions@);
        let mut any_listed = false;
        let mut i: usize = 0;
        while i < self.subscriptions.len()
            invariant
                i <= self.subscriptions@.len(),
                subs == subscriptions_view(self.subscriptions@),
                any_listed == exists|j: int| 0 <= j < i && (#[trigger] subs[j]).device_skis.len() > 0,
                forall|j: int| 0 <= j < i && sub_active(#[trigger] subs[j]) ==> !subs[j].device_skis.contains(local_ski@),
            decreases self.subscriptions.len() - i,
        {
            let s = &self.subscriptions[i];
            assert(subs[i as int] == s@);
            if s.device_skis.len() > 0 {
                any_listed = true;
                if s.is_active() && s.allows_device(local_ski) {
                    return true;
                }
            }
            i += 1;
        }
        !any_listed
    }
}

/// A status is entitled exactly when it reads `active` or `trialing` in
/// any ASCII case; `trialing` classifies as trialing, `active` as active.
pub proof fn law_entitled_statuses(s: Seq<char>)
    ensures
        (status_spec(s) != SubscriptionStatus::Other) <==> (lower_seq(s) == "active"@ || lower_seq(s)
            == "trialing"@),
        lower_seq(s) == "active"@ ==> status_spec(s) == SubscriptionStatus::Active,
        lower_seq(s) == "trialing"@ ==> status_spec(s) == SubscriptionStatus::Trialing,
{
    reveal_strlit("active");
    reveal_strlit("trialing");
    assert("active"@.len() != "trialing"@.len());
}

/// A seat whose status reads `trialing` is an active seat, and a device it
/// lists is allowed by the license's device rule.
pub proof fn law_trialing_seat_binds_device(subs: Seq<SubscriptionV>, i: int, ski: Seq<char>)
    requires
        0 <= i < subs.len(),
        lower_seq(subs[i].subscription_status) == "trialing"@,
        subs[i].device_skis.contains(ski),
    ensures
        sub_active(subs[i]),
        allows_local_device_spec(subs, ski),
{
    law_entitled_statuses(subs[i].subscription_status);
}

} // verus!
