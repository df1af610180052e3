//! Well-known keys of the state directory layout.

use vstd::prelude::*;

verus! {

pub const MACHINE_KEY: &'static str = "identity/machine.key";
pub const MACHINE_KEY_NEW: &'static str = "identity/machine.key.new";
pub const MACHINE_CSR: &'static str = "identity/machine.csr";
pub const MACHINE_CRT: &'static str = "identity/machine.crt";
pub const ORG_CA: &'static str = "identity/org-ca.crt";
pub const PLATFORM_CA: &'static str = "identity/platform-ca.crt";
pub const PLATFORM_ENDORSED: &'static str = "identity/platform-endorsed.crt";
pub const CHAIN: &'static str = "identity/chain.pem";
pub const CREDENTIAL: &'static str = "identity/credential.json";
pub const STATE: &'static str = "state.json";
pub const CONFIG: &'static str = "config.json";
/// Human session (not the machine identity).
pub const SESSION: &'static str = "session";

} // verus!
