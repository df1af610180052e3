//! Host configuration for the billing client.

use vstd::prelude::*;
use crate::error::{ErrorCode, TwoKeyError, TwoKeyResult};
use crate::text::{chars_of, copy_string, string_of, trim_chars, trim_seq};
use crate::url::{normalize_api_base_url, normalize_spec};

verus! {

/// Default background license poll interval: six hours.
pub const DEFAULT_POLL_INTERVAL_SECS: u64 = 21600;

/// Configuration a host supplies. The poll interval is held in whole seconds.
#[derive(Clone, Debug)]
pub struct SdkConfig {
    /// Billing host origin (a trailing `/api/v1` is stripped).
    pub api_base_url: String,
    /// EC public key (SPKI PEM) that verifies license tokens.
    pub public_key_pem: String,
    /// Namespace for persisted session keys.
    pub storage_prefix: String,
    /// Portal origin; the API origin when unset or blank.
    pub portal_base_url: Option<String>,
    /// Marketplace path (`/shop` when blank).
    pub shop_path: String,
    /// Optional deep-link scheme.
    pub deep_link_scheme: Option<String>,
    /// Background license poll interval in seconds (six hours when zero).
    pub license_poll_interval_secs: u64,
}

/// The message of the first missing required field, if any.
pub open spec fn config_problem(c: SdkConfig) -> Option<Seq<char>> {
    if normalize_spec(c.api_base_url@).len() == 0 {
        Some("api_base_url is required"@)
    } else if trim_seq(c.public_key_pem@).len() == 0 {
        Some("public_key_pem is required"@)
    } else if trim_seq(c.storage_prefix@).len() == 0 {
        Some("storage_prefix is required"@)
    } else {
        None
    }
}

impl SdkConfig {
    /// Validates the required fields and normalizes the rest.
    pub fn validate(self) -> (r: TwoKeyResult<SdkConfig>)
        ensures
            match r {
                Ok(v) => {
                    &&& config_problem(self) is None
                    &&& v.api_base_url@ == normalize_spec(self.api_base_url@)
                    &&& v.public_key_pem@ == self.public_key_pem@
                    &&& v.storage_prefix@ == trim_seq(self.storage_prefix@)
                    &&& v.portal_base_url == self.portal_base_url
                    &&& v.shop_path@ == (if trim_seq(self.shop_path@).len() == 0 {
                        "/shop"@
                    } else {
                        self.shop_path@
                    })
                    &&& v.deep_link_scheme == self.deep_link_scheme
                    &&& v.license_poll_interval_secs == (if self.license_poll_interval_secs == 0 {
                        DEFAULT_POLL_INTERVAL_SECS
                    } else {
                        self.license_poll_interval_secs
                    })
                },
                Err(e) => config_problem(self) == Some(e.message@) && e.code == ErrorCode::Config,
            },
    {
        let api_base_url = normalize_api_base_url(self.api_base_url.as_str());
        if api_base_url.as_str().is_empty() {
            return Err(TwoKeyError::new(ErrorCode::Config, "api_base_url is required"));
        }
        if trim_chars(&chars_of(self.public_key_pem.as_str())).len() == 0 {
            return Err(TwoKeyError::new(ErrorCode::Config, "public_key_pem is required"));
        }
        let prefix = trim_chars(&chars_of(self.storage_prefix.as_str()));
        if prefix.len() == 0 {
            return Err(TwoKeyError::new(ErrorCode::Config, "storage_prefix is required"));
        }
        let shop_path = if trim_chars(&chars_of(self.shop_path.as_str())).len() == 0 {
            copy_string("/shop")
        } else {
            self.shop_path
        };
        let license_poll_interval_secs = if self.license_poll_interval_secs == 0 {
            DEFAULT_POLL_INTERVAL_SECS
        } else {
            self.license_poll_interval_secs
        };
        Ok(
            SdkConfig {
                api_base_url,
                public_key_pem: self.public_key_pem,
                storage_prefix: string_of(&prefix),
                portal_base_url: self.portal_base_url,
                shop_path,
                deep_link_scheme: self.deep_link_scheme,
                license_poll_interval_secs,
            },
        )
    }

    /// The portal origin: the configured one unless unset or blank, else the
    /// API origin.
    pub fn resolved_portal_base_url(&self) -> (r: &str)
        ensures
            r@ == match self.portal_base_url {
                Some(p) => if trim_seq(p@).len() > 0 {
                    p@
                } else {
                    self.api_base_url@
                },
                None => self.api_base_url@,
            },
    {
        match &self.portal_base_url {
            Some(p) => {
                if trim_chars(&chars_of(p.as_str())).len() > 0 {
                    p.as_str()
                } else {
                    self.api_base_url.as_str()
                }
            },
            None => self.api_base_url.as_str(),
        }
    }
}

} // verus!
