//! Identities, threshold-signing sessions and the encrypted channel that
//! carries key shares.

pub mod identity;
pub mod frost;
pub mod share_map;
pub mod threshold;
pub mod encrypted_channel;
