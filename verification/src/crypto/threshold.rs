//! FROST t-of-n threshold signing sessions: key distribution, commitment
//! collection, partial signing and assembly.
//!
//! A session records what each round of the ceremony produced and decides
//! when the next round may start; the FROST computations themselves are
//! made by the caller, which hands their results to the session.

use vstd::prelude::*;
use crate::crypto::share_map::ShareMap;
use crate::strmap::StrMap;
use crate::text::str_eq;

verus! {

/// Where a signing session stands.
#[derive(Debug, Clone, Copy, PartialEq, Eq, Structural)]
pub enum SessionStatus {
    AwaitingKeyShares,
    Committing,
    Signing,
    Complete,
}

/// Why a round of the ceremony cannot be recorded.
#[derive(Debug, Clone, Copy, PartialEq, Eq, Structural)]
pub enum SessionError {
    NoKeyShare,
    NoNonce,
    NoGroupCommitment,
}

/// One node's view of a threshold signing ceremony over a document.
#[derive(Debug)]
pub struct SigningSession {
    pub session_id: String,
    pub document_path: String,
    pub document_hash: String,
    pub threshold: u16,
    pub total: u16,
    pub status: SessionStatus,
    pub group_public_key: Vec<u8>,
    pub key_share: Option<Vec<u8>>,
    pub my_share_id: Option<u16>,
    pub my_nonce: Option<Vec<u8>>,
    pub my_commitment: Option<Vec<u8>>,
    /// Commitments keyed by share id.
    pub commitments: ShareMap,
    /// Partial signatures keyed by share id.
    pub shares: ShareMap,
    /// The group commitment, once this node has signed its part.
    pub group_commitment: Option<Vec<u8>>,
    pub signature: Option<Vec<u8>>,
}

/// The number of ids that a round works with: the threshold, or all ids
/// when there are fewer.
pub open spec fn round_size(threshold: u16, available: nat) -> int {
    if (threshold as int) < available {
        threshold as int
    } else {
        available as int
    }
}

/// Whether `s` is a session just opened with these parameters.
pub open spec fn is_new_session(
    s: SigningSession,
    session_id: Seq<char>,
    document_path: Seq<char>,
    document_hash: Seq<char>,
    threshold: u16,
    total: u16,
    group_public_key: Seq<u8>,
) -> bool {
    &&& s.wf()
    &&& s.session_id@ == session_id
    &&& s.document_path@ == document_path
    &&& s.document_hash@ == document_hash
    &&& s.threshold == threshold
    &&& s.total == total
    &&& s.status == SessionStatus::AwaitingKeyShares
    &&& s.group_public_key@ == group_public_key
    &&& s.key_share is None
    &&& s.my_share_id is None
    &&& s.my_nonce is None
    &&& s.my_commitment is None
    &&& s.commitments@.is_empty()
    &&& s.shares@.is_empty()
    &&& s.group_commitment is None
    &&& s.signature is None
}

impl SigningSession {
    /// Well-formedness: both maps keep their ids in ascending order.
    pub open spec fn wf(self) -> bool {
        self.commitments.wf() && self.shares.wf()
    }

    /// Whether `self` and `other` agree on everything but the fields that a
    /// round changes: status, key share, nonce, commitments and signatures.
    pub open spec fn same_parameters(self, other: Self) -> bool {
        &&& self.session_id == other.session_id
        &&& self.document_path == other.document_path
        &&& self.document_hash == other.document_hash
        &&& self.threshold == other.threshold
        &&& self.total == other.total
        &&& self.group_public_key == other.group_public_key
    }

    /// A session awaiting its key share.
    pub fn new(
        session_id: String,
        document_path: String,
        document_hash: String,
        threshold: u16,
        total: u16,
        group_public_key: Vec<u8>,
    ) -> (s: Self)
        ensures
            is_new_session(
                s,
                session_id@,
                document_path@,
                document_hash@,
                threshold,
                total,
                group_public_key@,
            ),
            s.session_id == session_id,
            s.document_path == document_path,
            s.document_hash == document_hash,
            s.group_public_key == group_public_key,
    {
        SigningSession {
            session_id,
            document_path,
            document_hash,
            threshold,
            total,
            status: SessionStatus::AwaitingKeyShares,
            group_public_key,
            key_share: None,
            my_share_id: None,
            my_nonce: None,
            my_commitment: None,
            commitments: ShareMap::new(),
            shares: ShareMap::new(),
            group_commitment: None,
            signature: None,
        }
    }

    /// Records this node's key share and opens the commitment round.
    pub fn set_key_share(&mut self, share_bytes: Vec<u8>, share_id: u16)
        ensures
            final(self).key_share == Some(share_bytes),
            final(self).my_share_id == Some(share_id),
            final(self).status == SessionStatus::Committing,
            final(self).same_parameters(*old(self)),
            final(self).my_nonce == old(self).my_nonce,
            final(self).my_commitment == old(self).my_commitment,
            final(self).commitments == old(self).commitments,
            final(self).shares == old(self).shares,
            final(self).group_commitment == old(self).group_commitment,
            final(self).signature == old(self).signature,
    {
        self.key_share = Some(share_bytes);
        self.my_share_id = Some(share_id);
        self.status = SessionStatus::Committing;
    }

    /// Records this node's round-one commitment and the nonce it was made
    /// with, and counts the commitment under the node's share id; answers
    /// the commitment to broadcast. Refused without a key share.
    pub fn generate_commitment(&mut self, commitment: Vec<u8>, nonce: Vec<u8>) -> (r: Result<Vec<u8>, SessionError>)
        requires
            old(self).wf(),
        ensures
            final(self).wf(),
            old(self).key_share is None ==> r == Err::<Vec<u8>, SessionError>(SessionError::NoKeyShare)
                && *final(self) == *old(self),
            old(self).key_share is Some ==> {
                &&& r matches Ok(c) && c@ == commitment@
                &&& final(self).my_nonce == Some(nonce)
                &&& final(self).my_commitment matches Some(c) && c@ == commitment@
                &&& final(self).commitments@ == match old(self).my_share_id {
                    Some(id) => old(self).commitments@.insert(id, commitment@),
                    None => old(self).commitments@,
                }
                &&& final(self).same_parameters(*old(self))
                &&& final(self).status == old(self).status
                &&& final(self).key_share == old(self).key_share
                &&& final(self).my_share_id == old(self).my_share_id
                &&& final(self).shares == old(self).shares
                &&& final(self).group_commitment == old(self).group_commitment
                &&& final(self).signature == old(self).signature
            },
    {
        if self.key_share.is_none() {
            return Err(SessionError::NoKeyShare);
        }
        self.my_nonce = Some(nonce);
        self.my_commitment = Some(commitment.clone());
        match self.my_share_id {
            Some(id) => {
                self.commitments.insert(id, commitment.clone());
            },
            None => {},
        }
        Ok(commitment)
    }

    /// Records a peer's commitment; answers whether there are now at least
    /// as many commitments as the threshold.
    pub fn add_commitment(&mut self, share_id: u16, commitment_bytes: Vec<u8>) -> (enough: bool)
        requires
            old(self).wf(),
        ensures
            final(self).wf(),
            final(self).commitments@ == old(self).commitments@.insert(share_id, commitment_bytes@),
            enough == (final(self).commitments@.len() >= final(self).threshold),
            final(self).same_parameters(*old(self)),
            final(self).status == old(self).status,
            final(self).key_share == old(self).key_share,
            final(self).my_share_id == old(self).my_share_id,
            final(self).my_nonce == old(self).my_nonce,
            final(self).my_commitment == old(self).my_commitment,
            final(self).shares == old(self).shares,
            final(self).group_commitment == old(self).group_commitment,
            final(self).signature == old(self).signature,
    {
        self.commitments.insert(share_id, commitment_bytes);
        self.commitments.len() >= self.threshold as usize
    }

    /// Whether this node may sign its part: enough commitments, still in the
    /// commitment round, with a nonce and a key share.
    pub fn ready_to_sign(&self) -> (b: bool)
        requires
            self.wf(),
        ensures
            b == (self.commitments@.len() >= self.threshold && self.status == SessionStatus::Committing
                && self.my_nonce is Some && self.key_share is Some),
    {
        self.commitments.len() >= self.threshold as usize && self.status == SessionStatus::Committing
            && self.my_nonce.is_some() && self.key_share.is_some()
    }

    /// The share ids whose commitments go into this node's partial
    /// signature: the lowest ones, as many as the threshold.
    pub fn sorted_commitment_ids(&self) -> (ids: Vec<u16>)
        requires
            self.wf(),
        ensures
            ids@ == self.commitments.ids().take(round_size(self.threshold, self.commitments.ids().len())),
    {
        self.commitments.lowest_ids(self.threshold as usize)
    }

    /// The commitments of `sorted_commitment_ids`, in that order: the list
    /// that the FROST partial signature is computed over.
    pub fn signing_commitments(&self) -> (list: Vec<Vec<u8>>)
        requires
            self.wf(),
        ensures
            list@.map_values(|v: Vec<u8>| v@) == self.commitments.values().take(
                round_size(self.threshold, self.commitments.ids().len()),
            ),
    {
        self.commitments.lowest_values(self.threshold as usize)
    }

    /// Records this node's round-two partial signature and the group
    /// commitment it was made with: the nonce is used up and the session
    /// moves to signing. Answers both. Refused without a key share or nonce.
    pub fn produce_partial_signature(&mut self, share_bytes: Vec<u8>, group_commitment: Vec<u8>) -> (r: Result<
        (Vec<u8>, Vec<u8>),
        SessionError,
    >)
        requires
            old(self).wf(),
        ensures
            final(self).wf(),
            old(self).key_share is None ==> r == Err::<(Vec<u8>, Vec<u8>), SessionError>(SessionError::NoKeyShare)
                && *final(self) == *old(self),
            old(self).key_share is Some && old(self).my_nonce is None ==> r == Err::<
                (Vec<u8>, Vec<u8>),
                SessionError,
            >(SessionError::NoNonce) && *final(self) == *old(self),
            old(self).key_share is Some && old(self).my_nonce is Some ==> {
                &&& r matches Ok((s, g)) && s@ == share_bytes@ && g@ == group_commitment@
                &&& final(self).group_commitment matches Some(g) && g@ == group_commitment@
                &&& final(self).shares@ == match old(self).my_share_id {
                    Some(id) => old(self).shares@.insert(id, share_bytes@),
                    None => old(self).shares@,
                }
                &&& final(self).status == SessionStatus::Signing
                &&& final(self).my_nonce is None
                &&& final(self).same_parameters(*old(self))
                &&& final(self).key_share == old(self).key_share
                &&& final(self).my_share_id == old(self).my_share_id
                &&& final(self).my_commitment == old(self).my_commitment
                &&& final(self).commitments == old(self).commitments
                &&& final(self).signature == old(self).signature
            },
    {
        if self.key_share.is_none() {
            return Err(SessionError::NoKeyShare);
        }
        if self.my_nonce.is_none() {
            return Err(SessionError::NoNonce);
        }
        self.group_commitment = Some(group_commitment.clone());
        match self.my_share_id {
            Some(id) => {
                self.shares.insert(id, share_bytes.clone());
            },
            None => {},
        }
        self.status = SessionStatus::Signing;
        self.my_nonce = None;
        Ok((share_bytes, group_commitment))
    }

    /// Records a peer's partial signature; answers whether there are now at
    /// least as many as the threshold.
    pub fn add_share(&mut self, share_id: u16, share_bytes: Vec<u8>) -> (enough: bool)
        requires
            old(self).wf(),
        ensures
            final(self).wf(),
            final(self).shares@ == old(self).shares@.insert(share_id, share_bytes@),
            enough == (final(self).shares@.len() >= final(self).threshold),
            final(self).same_parameters(*old(self)),
            final(self).status == old(self).status,
            final(self).key_share == old(self).key_share,
            final(self).my_share_id == old(self).my_share_id,
            final(self).my_nonce == old(self).my_nonce,
            final(self).my_commitment == old(self).my_commitment,
            final(self).commitments == old(self).commitments,
            final(self).group_commitment == old(self).group_commitment,
            final(self).signature == old(self).signature,
    {
        self.shares.insert(share_id, share_bytes);
        self.shares.len() >= self.threshold as usize
    }

    /// Whether the signature may be assembled: enough partial signatures, a
    /// group commitment, and no signature yet.
    pub fn ready_to_assemble(&self) -> (b: bool)
        requires
            self.wf(),
        ensures
            b == (self.shares@.len() >= self.threshold && self.signature is None
                && self.group_commitment is Some),
    {
        self.shares.len() >= self.threshold as usize && self.signature.is_none()
            && self.group_commitment.is_some()
    }

    /// The share ids whose partial signatures go into the assembled
    /// signature: the lowest ones, as many as the threshold.
    pub fn sorted_share_ids(&self) -> (ids: Vec<u16>)
        requires
            self.wf(),
        ensures
            ids@ == self.shares.ids().take(round_size(self.threshold, self.shares.ids().len())),
    {
        self.shares.lowest_ids(self.threshold as usize)
    }

    /// The partial signatures of `sorted_share_ids`, in that order: the list
    /// that the FROST signature is assembled from.
    pub fn assembly_shares(&self) -> (list: Vec<Vec<u8>>)
        requires
            self.wf(),
        ensures
            list@.map_values(|v: Vec<u8>| v@) == self.shares.values().take(
                round_size(self.threshold, self.shares.ids().len()),
            ),
    {
        self.shares.lowest_values(self.threshold as usize)
    }

    /// Records the assembled signature and completes the session; answers
    /// the signature. Refused without a key share or a group commitment.
    pub fn assemble_signature(&mut self, signature: Vec<u8>) -> (r: Result<Vec<u8>, SessionError>)
        ensures
            old(self).key_share is None ==> r == Err::<Vec<u8>, SessionError>(SessionError::NoKeyShare)
                && *final(self) == *old(self),
            old(self).key_share is Some && old(self).group_commitment is None ==> r == Err::<
                Vec<u8>,
                SessionError,
            >(SessionError::NoGroupCommitment) && *final(self) == *old(self),
            old(self).key_share is Some && old(self).group_commitment is Some ==> {
                &&& r matches Ok(s) && s@ == signature@
                &&& final(self).signature matches Some(s) && s@ == signature@
                &&& final(self).status == SessionStatus::Complete
                &&& final(self).same_parameters(*old(self))
                &&& final(self).key_share == old(self).key_share
                &&& final(self).my_share_id == old(self).my_share_id
                &&& final(self).my_nonce == old(self).my_nonce
                &&& final(self).my_commitment == old(self).my_commitment
                &&& final(self).commitments == old(self).commitments
                &&& final(self).shares == old(self).shares
                &&& final(self).group_commitment == old(self).group_commitment
            },
    {
        if self.key_share.is_none() {
            return Err(SessionError::NoKeyShare);
        }
        if self.group_commitment.is_none() {
            return Err(SessionError::NoGroupCommitment);
        }
        self.signature = Some(signature.clone());
        self.status = SessionStatus::Complete;
        Ok(signature)
    }
}

/// The signing sessions of a node, keyed by session id.
#[derive(Debug)]
pub struct ThresholdState {
    pub sessions: StrMap<SigningSession>,
}

/// Whether a session is the completed one for a document.
pub open spec fn completes(document_path: Seq<char>) -> spec_fn(SigningSession) -> bool {
    |s: SigningSession| s.document_path@ == document_path && s.status == SessionStatus::Complete
}

impl ThresholdState {
    /// Well-formedness: each session id once, each session well formed.
    pub open spec fn wf(self) -> bool {
        &&& self.sessions.wf()
        &&& forall|k: Seq<char>| #[trigger] self.sessions@.contains_key(k) ==> self.sessions@[k].wf()
    }

    /// No sessions.
    pub fn new() -> (t: Self)
        ensures
            t.wf(),
            t.sessions@.is_empty(),
    {
        ThresholdState { sessions: StrMap::new() }
    }

    /// The session with id `session_id`, if there is one.
    pub fn get_session(&self, session_id: &str) -> (r: Option<&SigningSession>)
        requires
            self.wf(),
        ensures
            match r {
                Some(s) => self.sessions@.contains_key(session_id@) && *s == self.sessions@[session_id@],
                None => !self.sessions@.contains_key(session_id@),
            },
    {
        self.sessions.get(session_id)
    }

    /// A mutable borrow of the session with id `session_id`, if there is one;
    /// what is done through it is done to the stored session.
    pub fn get_session_mut(&mut self, session_id: &str) -> (r: Option<&mut SigningSession>)
        requires
            old(self).wf(),
        ensures
            match r {
                Some(s) => {
                    &&& old(self).sessions@.contains_key(session_id@)
                    &&& *s == old(self).sessions@[session_id@]
                    &&& final(self).sessions.wf()
                    &&& final(self).sessions@ == old(self).sessions@.insert(session_id@, *final(s))
                },
                None => !old(self).sessions@.contains_key(session_id@) && *final(self) == *old(self),
            },
    {
        self.sessions.get_mut(session_id)
    }

    /// The session with id `session_id`, opened with these parameters if
    /// there was none; an existing session is left as it is.
    pub fn create_session(
        &mut self,
        session_id: String,
        document_path: String,
        document_hash: String,
        threshold: u16,
        total: u16,
        group_public_key: Vec<u8>,
    ) -> (s: &mut SigningSession)
        requires
            old(self).wf(),
        ensures
            old(self).sessions@.contains_key(session_id@) ==> *s == old(self).sessions@[session_id@],
            !old(self).sessions@.contains_key(session_id@) ==> is_new_session(
                *s,
                session_id@,
                document_path@,
                document_hash@,
                threshold,
                total,
                group_public_key@,
            ),
            final(self).sessions.wf(),
            final(self).sessions@ == old(self).sessions@.insert(session_id@, *final(s)),
    {
        let lookup = session_id.clone();
        if !self.sessions.contains_key(lookup.as_str()) {
            let key = session_id.clone();
            let session = SigningSession::new(
                session_id,
                document_path,
                document_hash,
                threshold,
                total,
                group_public_key,
            );
            self.sessions.insert(key, session);
        }
        let r = self.sessions.get_mut(lookup.as_str());
        r.unwrap()
    }

    /// A completed session over the document at `document_path`, if any:
    /// the first such session in the order the state holds them.
    pub fn completed_signature(&self, document_path: &str) -> (r: Option<&SigningSession>)
        ensures
            match r {
                Some(s) => exists|i: int|
                    0 <= i < self.sessions.value_order().len() && self.sessions.value_order()[i] == *s
                        && completes(document_path@)(*s) && forall|j: int|
                        0 <= j < i ==> !completes(document_path@)(#[trigger] self.sessions.value_order()[j]),
                None => forall|j: int|
                    0 <= j < self.sessions.value_order().len() ==> !completes(document_path@)(
                        #[trigger] self.sessions.value_order()[j],
                    ),
            },
    {
        let n = self.sessions.entry_count();
        let mut i: usize = 0;
        while i < n
            invariant
                n == self.sessions.value_order().len(),
                i <= n,
                forall|j: int| 0 <= j < i ==> !completes(document_path@)(#[trigger] self.sessions.value_order()[j]),
            decreases n - i,
        {
            let s = self.sessions.value_at(i);
            if str_eq(s.document_path.as_str(), document_path) && s.status == SessionStatus::Complete {
                assert(self.sessions.value_order()[i as int] == *s);
                return Some(s);
            }
            i = i + 1;
        }
        None
    }
}

} // verus!
