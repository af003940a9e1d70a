//! Governance: proposals, votes and the membership they decide.

pub mod voting;
pub mod membership;
pub mod persistence;

pub use membership::GovernanceState;
pub use voting::{Proposal, ProposalStatus, Vote, VoteChoice};
