//! HyperHost: local virtual domains with HTTPS.
//!
//! The library holds the logic of the tool: the nginx configuration it
//! writes and imports, the hosts-file block it maintains, the project and
//! port detection rules, and the validation of what users enter.

use vstd::prelude::*;

pub mod cert;
pub mod cloudflare;
pub mod db;
pub mod detect;
pub mod dns;
pub mod docker;
pub mod domains;
pub mod elevation;
pub mod expiry;
pub mod mcp;
pub mod nginx;
pub mod paths;
pub mod skill;
pub mod text;

verus! {
} // verus!
