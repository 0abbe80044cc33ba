//! Server configuration.

use vstd::prelude::*;

verus! {

/// The port of the HTTP→HTTPS redirect server when none is configured.
pub fn default_http_redirect_port() -> (p: u16)
    ensures
        p == 80,
{
    80
}

/// The `server` section of the configuration.
pub struct ServerConfig {
    pub host: String,
    pub port: u16,
    /// HTTP redirect port for the HTTP→HTTPS redirect server (default: 80).
    pub http_redirect_port: u16,
    /// Canary field: not used at runtime, but its production check ensures
    /// that operators have gone through and customised the config before
    /// deploying.
    pub secret: String,
    pub jwtsecret: String,
    pub git_version: String,
}

} // verus!
