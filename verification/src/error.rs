//! Error taxonomy shared by every wrapper: a stable code and a message.

use vstd::prelude::*;
use crate::text::{chars_of, concat_chars, copy_string, string_of};

verus! {

/// Stable machine-readable error codes.
#[derive(Clone, Copy, Debug, PartialEq, Eq, Structural)]
pub enum ErrorCode {
    /// Missing or invalid configuration.
    Config,
    /// Network or transport failure.
    Network,
    /// HTTP 401 / missing auth.
    Unauthorized,
    /// No connectivity.
    Offline,
    /// License signature invalid.
    LicenseInvalid,
    /// License expired.
    LicenseExpired,
    /// License malformed or missing required claims.
    LicenseMalformed,
    /// License lists devices, this device is not among them.
    LicenseDeviceMismatch,
    /// License sync answered "not modified".
    NotModified,
    /// Unexpected server response shape.
    InvalidResponse,
    /// Unclassified.
    Unknown,
}

/// The snake-case name of each code.
pub open spec fn code_text(c: ErrorCode) -> Seq<char> {
    match c {
        ErrorCode::Config => "config"@,
        ErrorCode::Network => "network"@,
        ErrorCode::Unauthorized => "unauthorized"@,
        ErrorCode::Offline => "offline"@,
        ErrorCode::LicenseInvalid => "license_invalid"@,
        ErrorCode::LicenseExpired => "license_expired"@,
        ErrorCode::LicenseMalformed => "license_malformed"@,
        ErrorCode::LicenseDeviceMismatch => "license_device_mismatch"@,
        ErrorCode::NotModified => "not_modified"@,
        ErrorCode::InvalidResponse => "invalid_response"@,
        ErrorCode::Unknown => "unknown"@,
    }
}

/// The code names are distinct: different codes never share a name.
pub proof fn law_code_texts_distinct(a: ErrorCode, b: ErrorCode)
    requires
        a != b,
    ensures
        code_text(a) != code_text(b),
{
    reveal_strlit("config");
    reveal_strlit("network");
    reveal_strlit("unauthorized");
    reveal_strlit("offline");
    reveal_strlit("license_invalid");
    reveal_strlit("license_expired");
    reveal_strlit("license_malformed");
    reveal_strlit("license_device_mismatch");
    reveal_strlit("not_modified");
    reveal_strlit("invalid_response");
    reveal_strlit("unknown");
    if code_text(a) == code_text(b) {
        let ta = code_text(a);
        let tb = code_text(b);
        assert(ta.len() == tb.len());
        assert(ta[0] == tb[0]);
        assert(ta.len() > 8 ==> ta[8] == tb[8]);
    }
}

impl ErrorCode {
    /// Snake-case name for FFI and JSON.
    pub fn as_str(self) -> (r: &'static str)
        ensures
            r@ == code_text(self),
    {
        match self {
            ErrorCode::Config => "config",
            ErrorCode::Network => "network",
            ErrorCode::Unauthorized => "unauthorized",
            ErrorCode::Offline => "offline",
            ErrorCode::LicenseInvalid => "license_invalid",
            ErrorCode::LicenseExpired => "license_expired",
            ErrorCode::LicenseMalformed => "license_malformed",
            ErrorCode::LicenseDeviceMismatch => "license_device_mismatch",
            ErrorCode::NotModified => "not_modified",
            ErrorCode::InvalidResponse => "invalid_response",
            ErrorCode::Unknown => "unknown",
        }
    }

    /// The code's name as an owned string (what `Display` prints).
    pub fn to_string(self) -> (r: String)
        ensures
            r@ == code_text(self),
    {
        copy_string(self.as_str())
    }
}

/// An error with a stable code, a message, and optional technical detail.
#[derive(Debug)]
pub struct TwoKeyError {
    pub code: ErrorCode,
    pub message: String,
    pub detail: Option<String>,
}

/// `Result` with a [`TwoKeyError`].
pub type TwoKeyResult<T> = core::result::Result<T, TwoKeyError>;

/// The error's code and message.
pub open spec fn error_is(e: TwoKeyError, code: ErrorCode, message: Seq<char>) -> bool {
    e.code == code && e.message@ == message
}

impl TwoKeyError {
    /// An error with `code` and `message` and no detail.
    pub fn new(code: ErrorCode, message: &str) -> (r: TwoKeyError)
        ensures
            error_is(r, code, message@),
            r.detail is None,
    {
        TwoKeyError { code, message: copy_string(message), detail: None }
    }

    /// The same error with `detail` attached.
    pub fn with_detail(self, detail: &str) -> (r: TwoKeyError)
        ensures
            r.code == self.code,
            r.message@ == self.message@,
            r.detail is Some && r.detail->0@ == detail@,
    {
        TwoKeyError { code: self.code, message: self.message, detail: Some(copy_string(detail)) }
    }

    /// `"<code>: <message>"`, as `Display` renders it.
    pub fn to_string(&self) -> (r: String)
        ensures
            r@ == code_text(self.code) + ": "@ + self.message@,
    {
        let a = concat_chars(&chars_of(self.code.as_str()), &chars_of(": "));
        let b = concat_chars(&a, &chars_of(self.message.as_str()));
        string_of(&b)
    }
}

} // verus!
