//! Billing license, delegate-permission and machine-identity core.

pub mod admin;
pub mod agent;
pub mod api;
pub mod auth_session;
pub mod authorize;
pub mod billing_ids;
pub mod client_util;
pub mod config;
pub mod credential;
pub mod enrollment;
pub mod entity_ca;
pub mod crypto_ffi;
pub mod error;
pub mod facade;
pub mod ffi;
pub mod identity;
pub mod json;
pub mod keystore;
pub mod license;
pub mod lifecycle;
pub mod models;
pub mod mtls;
pub mod sdk_config;
pub mod sdk_error;
pub mod plan;
pub mod ports;
pub mod semver;
pub mod session;
pub mod signup;
pub mod state;
pub mod text;
pub mod types;
pub mod url;
