//! Errors of the device / agent SDK.

use vstd::prelude::*;
use crate::mtls::{mtls_error_text, MtlsError};
use crate::text::{chars_of, concat_chars, copy_string, decimal_chars, decimal_spec, string_of};

verus! {

/// SDK failures. Failures of outside libraries are held as their message.
#[derive(Debug)]
pub enum Error {
    Http { status: u16, body: String },
    Request(String),
    Json(String),
    Io(String),
    Mtls(MtlsError),
    Identity(String),
    Keystore(String),
    Enrollment(String),
    Lifecycle(String),
    Admin(String),
    Auth(String),
    Agent(String),
    Unsupported(String),
    Message(String),
}

/// `Result` with an [`Error`].
pub type SdkResult<T> = core::result::Result<T, Error>;

/// What `Display` prints for each error.
pub open spec fn error_text(e: Error) -> Seq<char> {
    match e {
        Error::Http { status, body } => "HTTP "@ + decimal_spec(status as int) + ": "@ + body@,
        Error::Request(s) => "request failed: "@ + s@,
        Error::Json(s) => "JSON: "@ + s@,
        Error::Io(s) => "I/O: "@ + s@,
        Error::Mtls(m) => "mTLS: "@ + mtls_error_text(m),
        Error::Identity(s) => "invalid machine identity: "@ + s@,
        Error::Keystore(s) => "keystore: "@ + s@,
        Error::Enrollment(s) => "enrollment: "@ + s@,
        Error::Lifecycle(s) => "lifecycle: "@ + s@,
        Error::Admin(s) => "admin: "@ + s@,
        Error::Auth(s) => "auth: "@ + s@,
        Error::Agent(s) => "agent: "@ + s@,
        Error::Unsupported(s) => "unsupported: "@ + s@,
        Error::Message(s) => s@,
    }
}

fn prefixed(prefix: &str, s: &String) -> (r: Vec<char>)
    ensures
        r@ == prefix@ + s@,
{
    concat_chars(&chars_of(prefix), &chars_of(s.as_str()))
}

impl Error {
    pub fn enrollment(msg: &str) -> (r: Error)
        ensures
            r matches Error::Enrollment(m) && m@ == msg@,
    {
        Error::Enrollment(copy_string(msg))
    }

    pub fn identity(msg: &str) -> (r: Error)
        ensures
            r matches Error::Identity(m) && m@ == msg@,
    {
        Error::Identity(copy_string(msg))
    }

    pub fn keystore(msg: &str) -> (r: Error)
        ensures
            r matches Error::Keystore(m) && m@ == msg@,
    {
        Error::Keystore(copy_string(msg))
    }

    pub fn lifecycle(msg: &str) -> (r: Error)
        ensures
            r matches Error::Lifecycle(m) && m@ == msg@,
    {
        Error::Lifecycle(copy_string(msg))
    }

    pub fn admin(msg: &str) -> (r: Error)
        ensures
            r matches Error::Admin(m) && m@ == msg@,
    {
        Error::Admin(copy_string(msg))
    }

    pub fn auth(msg: &str) -> (r: Error)
        ensures
            r matches Error::Auth(m) && m@ == msg@,
    {
        Error::Auth(copy_string(msg))
    }

    pub fn agent(msg: &str) -> (r: Error)
        ensures
            r matches Error::Agent(m) && m@ == msg@,
    {
        Error::Agent(copy_string(msg))
    }

    /// The error's message, as `Display` renders it.
    pub fn to_string(&self) -> (r: String)
        ensures
            r@ == error_text(*self),
    {
        let v = match self {
            Error::Http { status, body } => {
                let a = concat_chars(&chars_of("HTTP "), &decimal_chars(*status as i64));
                let b = concat_chars(&a, &chars_of(": "));
                concat_chars(&b, &chars_of(body.as_str()))
            },
            Error::Request(s) => prefixed("request failed: ", s),
            Error::Json(s) => prefixed("JSON: ", s),
            Error::Io(s) => prefixed("I/O: ", s),
            Error::Mtls(m) => {
                let t = m.to_string();
                prefixed("mTLS: ", &t)
            },
            Error::Identity(s) => prefixed("invalid machine identity: ", s),
            Error::Keystore(s) => prefixed("keystore: ", s),
            Error::Enrollment(s) => prefixed("enrollment: ", s),
            Error::Lifecycle(s) => prefixed("lifecycle: ", s),
            Error::Admin(s) => prefixed("admin: ", s),
            Error::Auth(s) => prefixed("auth: ", s),
            Error::Agent(s) => prefixed("agent: ", s),
            Error::Unsupported(s) => prefixed("unsupported: ", s),
            Error::Message(s) => chars_of(s.as_str()),
        };
        string_of(&v)
    }
}

} // verus!
