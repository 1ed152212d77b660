//! The records HyperHost keeps for domains and tunnels.

use vstd::prelude::*;

verus! {

/// A Cloudflare named tunnel.
#[derive(Debug, Clone)]
pub struct NamedTunnelConfig {
    pub id: Option<i64>,
    pub tunnel_name: String,
    pub tunnel_id: Option<String>,
    pub credentials_path: Option<String>,
    pub hostname: String,
    pub upstream: String,
    pub enabled: bool,
    pub created_at: Option<String>,
}

/// A local domain proxied to an upstream.
#[derive(Debug, Clone)]
pub struct DomainConfig {
    pub id: Option<i64>,
    pub domain: String,
    pub upstream: String,
    pub enabled: bool,
    pub cors_enabled: bool,
    pub cert_expiry: Option<String>,
    pub created_at: Option<String>,
    pub advanced_config: Option<String>,
    pub project_path: Option<String>,
    pub run_command: Option<String>,
}

/// A domain with the state of its certificate.
#[derive(Debug, Clone)]
pub struct DomainStatus {
    pub config: DomainConfig,
    pub cert_valid: bool,
    pub cert_expiry: Option<String>,
}

} // verus!
