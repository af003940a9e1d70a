//! Member identities: a public key, its digest and an optional display name.

use vstd::prelude::*;
use vstd::utf8::{decode_utf8, encode_utf8, is_ascii_chars, is_char_boundary};
use crate::support::clock::now_millis;
use crate::support::hashing::{hex_encode, hex_lower, sha512, sha512_of};
use crate::text::{all_white_space, lemma_trimmed_idempotent, lemma_trimmed_surrounded, trim, trimmed};

verus! {

broadcast use vstd::utf8::encode_utf8_decode_utf8;

/// A member's identity in the network.
#[derive(Debug)]
pub struct MemberIdentity {
    pub digest: String,
    pub public_key_hex: String,
    pub display_name: Option<String>,
    pub x25519_public_key_hex: Option<String>,
}

/// Where a member stands in the network.
#[derive(Debug, Clone, Copy, PartialEq, Eq, Structural)]
pub enum MemberStatus {
    Active,
    PendingJoin,
    Expelled,
}

/// A member with its status; times are milliseconds since the Unix epoch.
#[derive(Debug)]
pub struct MemberRecord {
    pub identity: MemberIdentity,
    pub status: MemberStatus,
    pub joined_at: Option<i64>,
    pub expelled_at: Option<i64>,
}

/// The digest of a public key: the first 16 bytes of the SHA-512 hash of the
/// trimmed key's UTF-8 bytes, in lower-case hexadecimal (32 characters).
pub open spec fn digest_of(public_key_hex: Seq<char>) -> Seq<char> {
    hex_lower(sha512_of(encode_utf8(trimmed(public_key_hex))).take(16))
}

/// Keys that differ only in whitespace around them have the same digest.
pub proof fn law_digest_ignores_surrounding_whitespace(p: Seq<char>, key: Seq<char>, q: Seq<char>)
    requires
        all_white_space(p),
        all_white_space(q),
    ensures
        digest_of(p + key + q) == digest_of(key),
{
    lemma_trimmed_surrounded(p, key, q);
}

/// The text made of the first 12 bytes of a digest's UTF-8 encoding.
pub open spec fn short_text(digest: Seq<char>) -> Seq<char> {
    decode_utf8(encode_utf8(digest).subrange(0, 12))
}

impl MemberIdentity {
    /// The identity for a public key; the key is stored trimmed, and the
    /// digest is that of the key.
    pub fn new(public_key_hex: &str, display_name: Option<String>) -> (id: Self)
        ensures
            id.digest@ == digest_of(public_key_hex@),
            id.digest@.len() == 32,
            is_ascii_chars(id.digest@),
            id.public_key_hex@ == trimmed(public_key_hex@),
            id.display_name == display_name,
            id.x25519_public_key_hex is None,
    {
        let key = trim(public_key_hex);
        proof {
            lemma_trimmed_idempotent(public_key_hex@);
        }
        let digest = Self::compute_digest(key);
        MemberIdentity {
            digest,
            public_key_hex: key.to_string(),
            display_name,
            x25519_public_key_hex: None,
        }
    }

    /// The same identity with its X25519 public key set.
    pub fn with_x25519(self, x25519_hex: String) -> (id: Self)
        ensures
            id.digest == self.digest,
            id.public_key_hex == self.public_key_hex,
            id.display_name == self.display_name,
            id.x25519_public_key_hex == Some(x25519_hex),
    {
        let mut id = self;
        id.x25519_public_key_hex = Some(x25519_hex);
        id
    }

    /// The digest of a public key, see `digest_of`.
    pub fn compute_digest(public_key_hex: &str) -> (d: String)
        ensures
            d@ == digest_of(public_key_hex@),
            d@.len() == 32,
            is_ascii_chars(d@),
    {
        let key = trim(public_key_hex);
        let hash = sha512(key.as_bytes());
        let mut head: Vec<u8> = Vec::new();
        let mut i: usize = 0;
        while i < 16
            invariant
                hash@.len() == 64,
                i <= 16,
                head@ == hash@.take(i as int),
            decreases 16 - i,
        {
            head.push(hash[i]);
            i = i + 1;
            assert(head@ =~= hash@.take(i as int));
        }
        let d = hex_encode(head.as_slice());
        assert forall|j: int| 0 <= j < d@.len() implies (#[trigger] d@[j]) as u32 <= 127 by {}
        d
    }

    /// The first 12 bytes of the digest, as text.
    pub fn short_id(&self) -> (s: String)
        requires
            encode_utf8(self.digest@).len() >= 12,
            is_char_boundary(encode_utf8(self.digest@), 12),
        ensures
            s@ == short_text(self.digest@),
    {
        let (head, _) = self.digest.as_str().split_at(12);
        head.to_string()
    }

    /// The display name followed by the short id in brackets, or the short id
    /// alone when there is no display name.
    pub fn display(&self) -> (s: String)
        requires
            encode_utf8(self.digest@).len() >= 12,
            is_char_boundary(encode_utf8(self.digest@), 12),
        ensures
            s@ == match self.display_name {
                Some(name) => name@ + seq![' ', '('] + short_text(self.digest@) + seq![')'],
                None => short_text(self.digest@),
            },
    {
        let short = self.short_id();
        match &self.display_name {
            Some(name) => {
                let mut s = name.clone();
                s.append(" (");
                s.append(short.as_str());
                s.append(")");
                proof {
                    reveal_strlit(" (");
                    reveal_strlit(")");
                }
                s
            },
            None => short,
        }
    }
}

impl Clone for MemberIdentity {
    fn clone(&self) -> (c: Self)
        ensures
            c == *self,
    {
        MemberIdentity {
            digest: self.digest.clone(),
            public_key_hex: self.public_key_hex.clone(),
            display_name: self.display_name.clone(),
            x25519_public_key_hex: self.x25519_public_key_hex.clone(),
        }
    }
}

impl Clone for MemberRecord {
    fn clone(&self) -> (c: Self)
        ensures
            c == *self,
    {
        MemberRecord {
            identity: self.identity.clone(),
            status: self.status,
            joined_at: self.joined_at,
            expelled_at: self.expelled_at,
        }
    }
}

impl MemberRecord {
    /// The founding member: active, joined now.
    pub fn new_genesis(identity: MemberIdentity) -> (r: Self)
        ensures
            r.identity == identity,
            r.status == MemberStatus::Active,
            r.joined_at is Some,
            r.expelled_at is None,
    {
        MemberRecord {
            identity,
            status: MemberStatus::Active,
            joined_at: Some(now_millis()),
            expelled_at: None,
        }
    }

    /// A member waiting to join.
    pub fn new_pending(identity: MemberIdentity) -> (r: Self)
        ensures
            r.identity == identity,
            r.status == MemberStatus::PendingJoin,
            r.joined_at is None,
            r.expelled_at is None,
    {
        MemberRecord { identity, status: MemberStatus::PendingJoin, joined_at: None, expelled_at: None }
    }
}

} // verus!
