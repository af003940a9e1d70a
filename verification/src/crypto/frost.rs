//! The records of FROST key material and signatures that nodes keep and
//! exchange.

use vstd::prelude::*;

verus! {

/// A member's FROST key share with the group it belongs to.
#[derive(Debug, Clone)]
pub struct FrostKeyPair {
    pub public_key: Vec<u8>,
    pub secret_share: Vec<u8>,
    pub share_id: u16,
    pub threshold: u16,
    pub total_members: u16,
}

/// An assembled threshold signature with its signers and the hash it signs.
#[derive(Debug, Clone)]
pub struct ThresholdSignature {
    pub signature: Vec<u8>,
    pub signers: Vec<u16>,
    pub message_hash: Vec<u8>,
}

/// One signer's partial signature.
#[derive(Debug, Clone)]
pub struct SignatureShare {
    pub share_id: u16,
    pub share_data: Vec<u8>,
    pub public_key_hex: String,
}

/// One signer's round-one commitment.
#[derive(Debug, Clone)]
pub struct FrostCommitment {
    pub share_id: u16,
    pub hiding: Vec<u8>,
    pub binding: Vec<u8>,
}

} // verus!
