//! The service configuration, as plain values; reading it from the
//! process environment is the caller's business.

use vstd::prelude::*;

verus! {

/// Where the service binds, where the upstream engine lives, and the
/// optional bearer token.
pub struct McpConfig {
    pub bind: String,
    pub searxng_url: String,
    pub auth_token: Option<String>,
}

} // verus!
