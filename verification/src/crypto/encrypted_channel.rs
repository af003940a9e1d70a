//! Encrypted transport of FROST key shares: X25519 key agreement between the
//! dealer and each member, SHA-256 to derive the symmetric key and nonce,
//! and ChaCha20-Poly1305 to seal the share.

use vstd::prelude::*;
use vstd::utf8::encode_utf8;
use crate::network::messages::append_bytes;
use crate::support::hashing::{hex_bytes, hex_decode, hex_encode, hex_lower, is_hex_text, law_hex_round_trip, sha256, sha256_of};
use vstd::string::StringSliceAdditionalSpecFns;
use chacha20poly1305::aead::{Aead, KeyInit};

verus! {

/// The X25519 public key of a 32-byte secret.
pub uninterp spec fn x25519_public_of(secret: Seq<u8>) -> Seq<u8>;

/// The X25519 shared secret of a 32-byte secret and a 32-byte public key.
pub uninterp spec fn x25519_dh_of(secret: Seq<u8>, public: Seq<u8>) -> Seq<u8>;

/// The ChaCha20-Poly1305 sealing (ciphertext followed by tag, no associated
/// data) of a plaintext under a 32-byte key and a 12-byte nonce.
pub uninterp spec fn aead_seal_of(key: Seq<u8>, nonce: Seq<u8>, plaintext: Seq<u8>) -> Seq<u8>;

/// `x25519_dalek::PublicKey::from(&StaticSecret::from(secret))`, as bytes.
#[verifier::external_body]
fn x25519_public(secret: &[u8]) -> (p: Vec<u8>)
    requires
        secret@.len() == 32,
    ensures
        p@ == x25519_public_of(secret@),
        p@.len() == 32,
{
    let mut s = [0u8; 32];
    s.copy_from_slice(secret);
    x25519_dalek::PublicKey::from(&x25519_dalek::StaticSecret::from(s)).as_bytes().to_vec()
}

/// `StaticSecret::diffie_hellman` of `secret` with `public`, as bytes. Key
/// agreement is symmetric: when `public` is the public key of some secret
/// `other`, the result is what `other` agrees with this secret's public key.
#[verifier::external_body]
fn x25519_shared(secret: &[u8], public: &[u8]) -> (shared: Vec<u8>)
    requires
        secret@.len() == 32,
        public@.len() == 32,
    ensures
        shared@ == x25519_dh_of(secret@, public@),
        shared@.len() == 32,
        forall|other: Seq<u8>|
            other.len() == 32 && public@ == #[trigger] x25519_public_of(other) ==> shared@ == x25519_dh_of(
                other,
                x25519_public_of(secret@),
            ),
{
    let mut s = [0u8; 32];
    s.copy_from_slice(secret);
    let mut p = [0u8; 32];
    p.copy_from_slice(public);
    x25519_dalek::StaticSecret::from(s).diffie_hellman(&x25519_dalek::PublicKey::from(p)).as_bytes().to_vec()
}

/// `ChaCha20Poly1305::encrypt` of `plaintext` under `key` and `nonce`: the
/// ciphertext followed by the 16-byte tag. It
/// fails only for a plaintext of 2^32 - 1 blocks of 64 bytes or more.
#[verifier::external_body]
fn chacha_seal(key: &[u8], nonce: &[u8], plaintext: &[u8]) -> (sealed: Option<Vec<u8>>)
    requires
        key@.len() == 32,
        nonce@.len() == 12,
    ensures
        sealed matches Some(v) ==> v@ == aead_seal_of(key@, nonce@, plaintext@),
        sealed matches Some(v) ==> v@.len() == plaintext@.len() + 16,
        plaintext@.len() / 64 < u32::MAX ==> sealed.is_some(),
{
    let cipher = chacha20poly1305::ChaCha20Poly1305::new(chacha20poly1305::Key::from_slice(key));
    cipher.encrypt(chacha20poly1305::Nonce::from_slice(nonce), plaintext).ok()
}

/// `ChaCha20Poly1305::decrypt` of `ciphertext` under `key` and `nonce`: the
/// plaintext whose sealing it is, and nothing when it is no sealing under
/// this key and nonce.
#[verifier::external_body]
fn chacha_open(key: &[u8], nonce: &[u8], ciphertext: &[u8]) -> (opened: Option<Vec<u8>>)
    requires
        key@.len() == 32,
        nonce@.len() == 12,
    ensures
        opened matches Some(v) ==> ciphertext@ == aead_seal_of(key@, nonce@, v@),
        forall|plain: Seq<u8>|
            ciphertext@ == #[trigger] aead_seal_of(key@, nonce@, plain) && plain.len() / 64 < u32::MAX
                ==> opened.is_some() && opened.unwrap()@ == plain,
{
    let cipher = chacha20poly1305::ChaCha20Poly1305::new(chacha20poly1305::Key::from_slice(key));
    cipher.decrypt(chacha20poly1305::Nonce::from_slice(nonce), ciphertext).ok()
}

/// An X25519 static secret, held as its 32 bytes.
#[derive(Debug)]
pub struct X25519Secret {
    bytes: Vec<u8>,
}

impl X25519Secret {
    /// The secret's 32 bytes.
    pub closed spec fn secret_bytes(&self) -> Seq<u8> {
        self.bytes@
    }

    #[verifier::type_invariant]
    closed spec fn is_32_bytes(&self) -> bool {
        self.bytes@.len() == 32
    }
}

/// The bytes hashed to derive a node's X25519 secret from its FROST secret.
pub open spec fn x25519_derivation_input(frost_secret: Seq<u8>) -> Seq<u8> {
    encode_utf8("quorum-trust-x25519-derivation"@) + frost_secret
}

/// A node's X25519 secret: the SHA-256 hash of a fixed label followed by its
/// FROST secret bytes.
pub open spec fn derived_x25519_secret(frost_secret: Seq<u8>) -> Seq<u8> {
    sha256_of(x25519_derivation_input(frost_secret))
}

/// The symmetric key of a share: SHA-256 of the shared secret followed by
/// the ceremony context.
pub open spec fn channel_key(shared: Seq<u8>, context: Seq<u8>) -> Seq<u8> {
    sha256_of(shared + context)
}

/// The nonce of a share: the first 12 bytes of the SHA-256 hash of a fixed
/// label, the ceremony context and the shared secret.
pub open spec fn channel_nonce(shared: Seq<u8>, context: Seq<u8>) -> Seq<u8> {
    sha256_of(encode_utf8("frost-share-nonce"@) + context + shared).take(12)
}

/// What `encrypt_for_recipient` sends: the nonce followed by the sealed
/// plaintext, both derived from the secret shared with the recipient.
pub open spec fn sealed_share(
    our_secret: Seq<u8>,
    recipient_public: Seq<u8>,
    plaintext: Seq<u8>,
    context: Seq<u8>,
) -> Seq<u8> {
    let shared = x25519_dh_of(our_secret, recipient_public);
    channel_nonce(shared, context) + aead_seal_of(
        channel_key(shared, context),
        channel_nonce(shared, context),
        plaintext,
    )
}

/// Why a share could not be sealed or opened.
#[derive(Debug, Clone, Copy, PartialEq, Eq, Structural)]
pub enum ChannelError {
    /// The public key is not hexadecimal text.
    BadPublicKeyHex,
    /// The public key is not 32 bytes long.
    WrongPublicKeyLength,
    /// The sealed data is shorter than a nonce.
    CiphertextTooShort,
    /// The plaintext is too long to seal.
    EncryptFailed,
    /// The data does not open under the derived key and nonce.
    DecryptFailed,
}

/// The X25519 secret of a node, derived from its FROST secret bytes.
pub fn derive_x25519_secret(frost_secret_bytes: &[u8]) -> (s: X25519Secret)
    ensures
        s.secret_bytes() == derived_x25519_secret(frost_secret_bytes@),
{
    let mut input: Vec<u8> = Vec::new();
    append_bytes(&mut input, "quorum-trust-x25519-derivation".as_bytes());
    append_bytes(&mut input, frost_secret_bytes);
    let bytes = sha256(input.as_slice());
    X25519Secret { bytes }
}

/// The X25519 public key of a node, derived from its FROST secret bytes.
pub fn derive_x25519_public(frost_secret_bytes: &[u8]) -> (p: Vec<u8>)
    ensures
        p@ == x25519_public_of(derived_x25519_secret(frost_secret_bytes@)),
        p@.len() == 32,
{
    let secret = derive_x25519_secret(frost_secret_bytes);
    proof {
        use_type_invariant(&secret);
    }
    x25519_public(secret.bytes.as_slice())
}

/// The X25519 public key of a node in lower-case hexadecimal, as stored in
/// its member identity.
pub fn x25519_public_hex(frost_secret_bytes: &[u8]) -> (h: String)
    ensures
        h@ == hex_lower(x25519_public_of(derived_x25519_secret(frost_secret_bytes@))),
{
    let p = derive_x25519_public(frost_secret_bytes);
    hex_encode(p.as_slice())
}

/// The public key that hexadecimal text stands for, or the error that
/// refuses it.
fn decode_public_key(hex_text: &str) -> (r: Result<Vec<u8>, ChannelError>)
    ensures
        match r {
            Ok(pk) => is_hex_text(hex_text.spec_bytes()) && pk@ == hex_bytes(hex_text.spec_bytes())
                && pk@.len() == 32,
            Err(e) => (e == ChannelError::BadPublicKeyHex && !is_hex_text(hex_text.spec_bytes())) || (e
                == ChannelError::WrongPublicKeyLength && is_hex_text(hex_text.spec_bytes()) && hex_bytes(
                hex_text.spec_bytes(),
            ).len() != 32),
        },
{
    match hex_decode(hex_text) {
        Some(pk) => {
            if pk.len() != 32 {
                Err(ChannelError::WrongPublicKeyLength)
            } else {
                Ok(pk)
            }
        },
        None => Err(ChannelError::BadPublicKeyHex),
    }
}

/// The symmetric key and the nonce for a share, from the shared secret and
/// the ceremony context.
fn channel_parameters(shared: &[u8], context: &[u8]) -> (kn: (Vec<u8>, Vec<u8>))
    ensures
        kn.0@ == channel_key(shared@, context@),
        kn.1@ == channel_nonce(shared@, context@),
        kn.0@.len() == 32,
        kn.1@.len() == 12,
{
    let mut key_input: Vec<u8> = Vec::new();
    append_bytes(&mut key_input, shared);
    append_bytes(&mut key_input, context);
    let key = sha256(key_input.as_slice());
    let mut nonce_input: Vec<u8> = Vec::new();
    append_bytes(&mut nonce_input, "frost-share-nonce".as_bytes());
    append_bytes(&mut nonce_input, context);
    append_bytes(&mut nonce_input, shared);
    let hash = sha256(nonce_input.as_slice());
    let nonce = byte_range(&hash, 0, 12);
    (key, nonce)
}

/// The bytes of `data` from `from` up to `to`.
fn byte_range(data: &[u8], from: usize, to: usize) -> (r: Vec<u8>)
    requires
        from <= to <= data@.len(),
    ensures
        r@ == data@.subrange(from as int, to as int),
{
    let mut r: Vec<u8> = Vec::new();
    let mut i: usize = from;
    while i < to
        invariant
            from <= i <= to,
            to <= data@.len(),
            r@ == data@.subrange(from as int, i as int),
        decreases to - i,
    {
        r.push(data[i]);
        i = i + 1;
        assert(r@ =~= data@.subrange(from as int, i as int));
    }
    r
}

/// Seals `plaintext` for the member whose X25519 public key is
/// `recipient_public_hex`, within the ceremony `context`; answers the nonce
/// followed by the sealed plaintext (see `sealed_share`).
pub fn encrypt_for_recipient(
    our_secret: &X25519Secret,
    recipient_public_hex: &str,
    plaintext: &[u8],
    context: &[u8],
) -> (r: Result<Vec<u8>, ChannelError>)
    ensures
        !is_hex_text(recipient_public_hex.spec_bytes()) <==> r == Err::<Vec<u8>, ChannelError>(
            ChannelError::BadPublicKeyHex,
        ),
        is_hex_text(recipient_public_hex.spec_bytes()) && hex_bytes(recipient_public_hex.spec_bytes()).len()
            != 32 <==> r == Err::<Vec<u8>, ChannelError>(ChannelError::WrongPublicKeyLength),
        r matches Ok(out) ==> out@ == sealed_share(
            our_secret.secret_bytes(),
            hex_bytes(recipient_public_hex.spec_bytes()),
            plaintext@,
            context@,
        ),
        r matches Ok(out) ==> out@.len() == 12 + plaintext@.len() + 16,
        r == Err::<Vec<u8>, ChannelError>(ChannelError::EncryptFailed) ==> plaintext@.len() / 64 >= u32::MAX,
        r is Err ==> r == Err::<Vec<u8>, ChannelError>(ChannelError::BadPublicKeyHex) || r == Err::<
            Vec<u8>,
            ChannelError,
        >(ChannelError::WrongPublicKeyLength) || r == Err::<Vec<u8>, ChannelError>(ChannelError::EncryptFailed),
{
    proof {
        use_type_invariant(our_secret);
    }
    let recipient = match decode_public_key(recipient_public_hex) {
        Ok(pk) => pk,
        Err(e) => {
            return Err(e);
        },
    };
    let shared = x25519_shared(our_secret.bytes.as_slice(), recipient.as_slice());
    let (key, nonce) = channel_parameters(shared.as_slice(), context);
    match chacha_seal(key.as_slice(), nonce.as_slice(), plaintext) {
        Some(ciphertext) => {
            let mut out = nonce;
            append_bytes(&mut out, ciphertext.as_slice());
            Ok(out)
        },
        None => Err(ChannelError::EncryptFailed),
    }
}

/// Opens data sealed by `encrypt_for_recipient` from the member whose X25519
/// public key is `sender_public_hex`, within the ceremony `context`. Data
/// that the sender sealed for this node's public key opens to its
/// plaintext.
pub fn decrypt_from_sender(
    our_secret: &X25519Secret,
    sender_public_hex: &str,
    data: &[u8],
    context: &[u8],
) -> (r: Result<Vec<u8>, ChannelError>)
    ensures
        data@.len() < 12 <==> r == Err::<Vec<u8>, ChannelError>(ChannelError::CiphertextTooShort),
        data@.len() >= 12 && !is_hex_text(sender_public_hex.spec_bytes()) <==> r == Err::<Vec<u8>, ChannelError>(
            ChannelError::BadPublicKeyHex,
        ),
        data@.len() >= 12 && is_hex_text(sender_public_hex.spec_bytes()) && hex_bytes(
            sender_public_hex.spec_bytes(),
        ).len() != 32 <==> r == Err::<Vec<u8>, ChannelError>(ChannelError::WrongPublicKeyLength),
        r matches Ok(plain) ==> {
            let shared = x25519_dh_of(our_secret.secret_bytes(), hex_bytes(sender_public_hex.spec_bytes()));
            data@.subrange(12, data@.len() as int) == aead_seal_of(
                channel_key(shared, context@),
                data@.subrange(0, 12),
                plain@,
            )
        },
        forall|sender_secret: Seq<u8>, plain: Seq<u8>|
            sender_secret.len() == 32 && x25519_public_of(sender_secret).len() == 32 && plain.len() / 64
                < u32::MAX && sender_public_hex@ == hex_lower(x25519_public_of(sender_secret)) && data@
                == #[trigger] sealed_share(sender_secret, x25519_public_of(our_secret.secret_bytes()), plain, context@)
                ==> (r matches Ok(v) && v@ == plain),
        r is Err ==> r == Err::<Vec<u8>, ChannelError>(ChannelError::CiphertextTooShort) || r == Err::<
            Vec<u8>,
            ChannelError,
        >(ChannelError::BadPublicKeyHex) || r == Err::<Vec<u8>, ChannelError>(
            ChannelError::WrongPublicKeyLength,
        ) || r == Err::<Vec<u8>, ChannelError>(ChannelError::DecryptFailed),
{
    proof {
        use_type_invariant(our_secret);
    }
    let sender = match decode_public_key(sender_public_hex) {
        Ok(pk) => pk,
        Err(e) => {
            proof {
                assert forall|sender_secret: Seq<u8>|
                    x25519_public_of(sender_secret).len() == 32 && sender_public_hex@ == #[trigger] hex_lower(
                        x25519_public_of(sender_secret),
                    ) implies false by {
                    law_hex_round_trip(x25519_public_of(sender_secret));
                }
            }
            if data.len() < 12 {
                return Err(ChannelError::CiphertextTooShort);
            }
            return Err(e);
        },
    };
    let shared = x25519_shared(our_secret.bytes.as_slice(), sender.as_slice());
    let (key, derived_nonce) = channel_parameters(shared.as_slice(), context);
    proof {
        assert forall|sender_secret: Seq<u8>, plain: Seq<u8>|
            sender_secret.len() == 32 && sender_public_hex@ == hex_lower(x25519_public_of(sender_secret))
                && data@ == #[trigger] sealed_share(
                sender_secret,
                x25519_public_of(our_secret.secret_bytes()),
                plain,
                context@,
            ) implies shared@ == x25519_dh_of(sender_secret, x25519_public_of(our_secret.secret_bytes()))
            && data@.len() >= 12 && data@.subrange(0, 12) == derived_nonce@ && data@.subrange(
            12,
            data@.len() as int,
        ) == aead_seal_of(key@, derived_nonce@, plain) by {
            let sp = x25519_public_of(sender_secret);
            law_hex_round_trip(sp);
            assert(sender_public_hex.spec_bytes() == encode_utf8(hex_lower(sp)));
            assert(sender@ == sp);
            let sh = x25519_dh_of(sender_secret, x25519_public_of(our_secret.secret_bytes()));
            assert(shared@ == sh);
            assert(derived_nonce@ == channel_nonce(sh, context@));
            assert(data@.subrange(0, 12) =~= derived_nonce@);
            assert(data@.subrange(12, data@.len() as int) =~= aead_seal_of(key@, derived_nonce@, plain));
        }
    }
    if data.len() < 12 {
        return Err(ChannelError::CiphertextTooShort);
    }
    let nonce = byte_range(data, 0, 12);
    let ciphertext = byte_range(data, 12, data.len());
    match chacha_open(key.as_slice(), nonce.as_slice(), ciphertext.as_slice()) {
        Some(plain) => Ok(plain),
        None => {
            proof {
                assert forall|sender_secret: Seq<u8>, plain: Seq<u8>|
                    sender_secret.len() == 32 && plain.len() / 64 < u32::MAX && sender_public_hex@ == hex_lower(
                        x25519_public_of(sender_secret),
                    ) && data@ == #[trigger] sealed_share(
                        sender_secret,
                        x25519_public_of(our_secret.secret_bytes()),
                        plain,
                        context@,
                    ) implies false by {
                    assert(nonce@ == derived_nonce@);
                    assert(ciphertext@ == aead_seal_of(key@, nonce@, plain));
                }
            }
            Err(ChannelError::DecryptFailed)
        },
    }
}

} // verus!
