//! The messages that nodes gossip to each other.

use vstd::prelude::*;
use crate::governance::voting::{ProposalType, VoteChoice};
use crate::support::clock::now_millis;
use crate::support::ids::new_uuid;

verus! {

/// What a gossip message carries.
#[derive(Debug, Clone)]
pub enum GossipMessageType {
    /// Request to join the network.
    JoinRequest { public_key_hex: String, display_name: Option<String> },
    /// A governance proposal.
    Proposal { proposal_id: String, proposal_type: ProposalType },
    /// A vote on a pending proposal.
    Vote { proposal_id: String, choice: VoteChoice },
    /// The outcome of a proposal.
    ProposalResult { proposal_id: String, accepted: bool },
    /// A request for the peers' governance state.
    SyncRequest,
    /// A governance state, serialized as JSON.
    SyncResponse { state_json: String },
    /// A liveness signal with a member's view of the network.
    Heartbeat { member_digest: String, active_members: usize, pending_proposals: usize },
    /// Encrypted FROST key shares for a signing ceremony.
    ThresholdKeyDistribution {
        session_id: String,
        document_path: String,
        document_hash: String,
        group_public_key: Vec<u8>,
        dealer_x25519_public_hex: String,
        shares: Vec<KeyShareEnvelope>,
        threshold: u16,
        total: u16,
    },
    /// The start of a signing ceremony.
    SigningSessionStart { session_id: String, document_path: String, document_hash: String },
    /// A round-one commitment.
    SigningCommitment { session_id: String, commitment: Vec<u8>, share_id: u16 },
    /// A round-two partial signature.
    SigningShare { session_id: String, share: Vec<u8>, share_id: u16 },
    /// An assembled threshold signature.
    ThresholdSignatureResult {
        session_id: String,
        document_path: String,
        signature: Vec<u8>,
        group_public_key: Vec<u8>,
        threshold: u16,
        total: u16,
    },
    /// The peers a node knows of.
    PeerExchange { known_peers: Vec<PeerInfo> },
}

/// The name of each kind of message.
pub open spec fn kind_name_of(t: GossipMessageType) -> Seq<char> {
    match t {
        GossipMessageType::JoinRequest { .. } => "JoinRequest"@,
        GossipMessageType::Proposal { .. } => "Proposal"@,
        GossipMessageType::Vote { .. } => "Vote"@,
        GossipMessageType::ProposalResult { .. } => "ProposalResult"@,
        GossipMessageType::SyncRequest => "SyncRequest"@,
        GossipMessageType::SyncResponse { .. } => "SyncResponse"@,
        GossipMessageType::Heartbeat { .. } => "Heartbeat"@,
        GossipMessageType::ThresholdKeyDistribution { .. } => "ThresholdKeyDistribution"@,
        GossipMessageType::SigningSessionStart { .. } => "SigningSessionStart"@,
        GossipMessageType::SigningCommitment { .. } => "SigningCommitment"@,
        GossipMessageType::SigningShare { .. } => "SigningShare"@,
        GossipMessageType::ThresholdSignatureResult { .. } => "ThresholdSignatureResult"@,
        GossipMessageType::PeerExchange { .. } => "PeerExchange"@,
    }
}

impl GossipMessageType {
    /// The name of the kind of message, for logs.
    pub fn kind_name(&self) -> (n: &'static str)
        ensures
            n@ == kind_name_of(*self),
    {
        match self {
            GossipMessageType::JoinRequest { .. } => "JoinRequest",
            GossipMessageType::Proposal { .. } => "Proposal",
            GossipMessageType::Vote { .. } => "Vote",
            GossipMessageType::ProposalResult { .. } => "ProposalResult",
            GossipMessageType::SyncRequest => "SyncRequest",
            GossipMessageType::SyncResponse { .. } => "SyncResponse",
            GossipMessageType::Heartbeat { .. } => "Heartbeat",
            GossipMessageType::ThresholdKeyDistribution { .. } => "ThresholdKeyDistribution",
            GossipMessageType::SigningSessionStart { .. } => "SigningSessionStart",
            GossipMessageType::SigningCommitment { .. } => "SigningCommitment",
            GossipMessageType::SigningShare { .. } => "SigningShare",
            GossipMessageType::ThresholdSignatureResult { .. } => "ThresholdSignatureResult",
            GossipMessageType::PeerExchange { .. } => "PeerExchange",
        }
    }
}

/// A FROST key share encrypted for one member.
#[derive(Debug, Clone)]
pub struct KeyShareEnvelope {
    pub recipient_digest: String,
    pub share_id: u16,
    pub encrypted_share: Vec<u8>,
}

/// A known peer node; `last_seen` is in milliseconds since the Unix epoch.
#[derive(Debug)]
pub struct PeerInfo {
    /// IP address or host name.
    pub address: String,
    /// Peer-to-peer port.
    pub port: u16,
    /// Display name, if any.
    pub name: Option<String>,
    pub last_seen: i64,
}

impl Clone for PeerInfo {
    fn clone(&self) -> (c: Self)
        ensures
            c == *self,
    {
        PeerInfo {
            address: self.address.clone(),
            port: self.port,
            name: self.name.clone(),
            last_seen: self.last_seen,
        }
    }
}

/// A signed gossip message; `timestamp` is in milliseconds since the Unix
/// epoch.
#[derive(Debug, Clone)]
pub struct GossipMessage {
    pub id: String,
    pub sender_digest: String,
    pub message_type: GossipMessageType,
    pub signature: Vec<u8>,
    pub timestamp: i64,
    pub network_name: String,
}

/// The bytes a message's signature covers: its id, sender and network name,
/// then its type serialized as JSON, then its time written in RFC 3339.
pub open spec fn signing_payload(
    m: GossipMessage,
    message_type_json: Seq<u8>,
    timestamp_rfc3339: Seq<u8>,
) -> Seq<u8> {
    vstd::utf8::encode_utf8(m.id@) + vstd::utf8::encode_utf8(m.sender_digest@) + vstd::utf8::encode_utf8(
        m.network_name@,
    ) + message_type_json + timestamp_rfc3339
}

impl GossipMessage {
    /// A fresh unsigned message with a random id, stamped with the current time.
    pub fn new(sender_digest: &str, message_type: GossipMessageType, network_name: &str) -> (m: Self)
        ensures
            m.id@.len() == 36,
            m.sender_digest@ == sender_digest@,
            m.message_type == message_type,
            m.signature@.len() == 0,
            m.network_name@ == network_name@,
    {
        GossipMessage {
            id: new_uuid(),
            sender_digest: sender_digest.to_string(),
            message_type,
            signature: Vec::new(),
            timestamp: now_millis(),
            network_name: network_name.to_string(),
        }
    }

    /// The bytes that the message's signature covers, see `signing_payload`;
    /// the caller hands in the message type serialized as JSON and the
    /// timestamp written in RFC 3339.
    pub fn payload_for_signing(&self, message_type_json: &[u8], timestamp_rfc3339: &str) -> (data: Vec<u8>)
        ensures
            data@ == signing_payload(*self, message_type_json@, vstd::utf8::encode_utf8(timestamp_rfc3339@)),
    {
        let mut data: Vec<u8> = Vec::new();
        append_bytes(&mut data, self.id.as_str().as_bytes());
        append_bytes(&mut data, self.sender_digest.as_str().as_bytes());
        append_bytes(&mut data, self.network_name.as_str().as_bytes());
        append_bytes(&mut data, message_type_json);
        append_bytes(&mut data, timestamp_rfc3339.as_bytes());
        data
    }
}

/// Appends `tail` to `data`.
pub fn append_bytes(data: &mut Vec<u8>, tail: &[u8])
    ensures
        final(data)@ == old(data)@ + tail@,
{
    let mut i: usize = 0;
    while i < tail.len()
        invariant
            i <= tail@.len(),
            data@ == old(data)@ + tail@.take(i as int),
        decreases tail@.len() - i,
    {
        data.push(tail[i]);
        i = i + 1;
        assert(data@ =~= old(data)@ + tail@.take(i as int));
    }
    assert(tail@.take(tail@.len() as int) =~= tail@);
}

} // verus!
