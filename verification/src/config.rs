//! A node's configuration. Paths are held as text.

use vstd::prelude::*;
use crate::support::ids::new_uuid;

verus! {

/// The threshold signature scheme a network uses.
#[derive(Debug, Clone, Copy, PartialEq, Eq, Structural)]
pub enum CryptoScheme {
    Frost,
}

/// How many requests of each kind a member may make per day.
#[derive(Debug, Clone, Copy, PartialEq, Eq, Structural)]
pub struct RateLimitConfig {
    pub max_new_files_per_day: u32,
    pub max_file_updates_per_day: u32,
    pub max_requests_per_day: u32,
}

impl Default for RateLimitConfig {
    fn default() -> (c: Self)
        ensures
            c.max_new_files_per_day == 50,
            c.max_file_updates_per_day == 200,
            c.max_requests_per_day == 500,
    {
        RateLimitConfig { max_new_files_per_day: 50, max_file_updates_per_day: 200, max_requests_per_day: 500 }
    }
}

/// The founding member of a network.
#[derive(Debug, Clone)]
pub struct GenesisConfig {
    pub member_name: String,
    pub public_key_hex: String,
}

/// A node's configuration.
#[derive(Debug, Clone)]
pub struct NodeConfig {
    pub node_name: Option<String>,
    pub network_name: String,
    pub node_port: u16,
    pub rpc_port: u16,
    pub public_port: u16,
    pub rpc_api_key: String,
    pub rpc_bind_localhost_only: bool,
    pub documents_dir: String,
    pub data_dir: String,
    pub secret_key_file: String,
    pub crypto_scheme: CryptoScheme,
    pub rate_limit: RateLimitConfig,
    pub genesis: Option<GenesisConfig>,
    pub bootstrap_peers: Vec<String>,
    pub expose_public_port: bool,
}

impl Default for NodeConfig {
    /// The defaults: ports 9400 to 9402, RPC bound to localhost with a fresh
    /// random API key, documents in `./documents` and data in `./data`.
    fn default() -> (c: Self)
        ensures
            c.node_name is None,
            c.network_name@ == "quorum-trust-default"@,
            c.node_port == 9400,
            c.rpc_port == 9401,
            c.public_port == 9402,
            c.rpc_api_key@.len() == 36,
            c.rpc_bind_localhost_only,
            c.documents_dir@ == "./documents"@,
            c.data_dir@ == "./data"@,
            c.secret_key_file@ == "./data/secret.key"@,
            c.crypto_scheme == CryptoScheme::Frost,
            c.rate_limit == (RateLimitConfig {
                max_new_files_per_day: 50,
                max_file_updates_per_day: 200,
                max_requests_per_day: 500,
            }),
            c.genesis is None,
            c.bootstrap_peers@.len() == 0,
            c.expose_public_port,
    {
        NodeConfig {
            node_name: None,
            network_name: String::from_str("quorum-trust-default"),
            node_port: 9400,
            rpc_port: 9401,
            public_port: 9402,
            rpc_api_key: new_uuid(),
            rpc_bind_localhost_only: true,
            documents_dir: String::from_str("./documents"),
            data_dir: String::from_str("./data"),
            secret_key_file: String::from_str("./data/secret.key"),
            crypto_scheme: CryptoScheme::Frost,
            rate_limit: RateLimitConfig::default(),
            genesis: None,
            bootstrap_peers: Vec::new(),
            expose_public_port: true,
        }
    }
}

} // verus!
