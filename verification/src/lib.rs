//! QuorumTrust: governance, threshold-signing ceremonies and document
//! bookkeeping for a decentralized document collaboration network.
//!
//! Members vote on proposals; a proposal passes with more than two thirds
//! of the active members and fails with two thirds or more against it.
//! Final documents are signed with FROST threshold signatures whose key
//! shares travel encrypted to each member.

pub mod cli;
pub mod config;
pub mod text;
pub mod strmap;
pub mod support;
pub mod governance;
pub mod crypto;
pub mod network;
pub mod document;
pub mod rpc;

pub use config::NodeConfig;
pub use crypto::identity::MemberIdentity;
pub use governance::GovernanceState;
