use quorum_trust::crypto::encrypted_channel::{
    decrypt_from_sender, derive_x25519_public, derive_x25519_secret, encrypt_for_recipient, x25519_public_hex,
    ChannelError,
};

#[test]
fn test_encrypt_decrypt_roundtrip() {
    let alice_secret_bytes = b"alice-frost-secret-key-material!";
    let bob_secret_bytes = b"bob-frost-secret-key-bytes-here!";

    let alice_secret = derive_x25519_secret(alice_secret_bytes);
    let bob_secret = derive_x25519_secret(bob_secret_bytes);
    let bob_public_hex = x25519_public_hex(bob_secret_bytes);
    let alice_public_hex = x25519_public_hex(alice_secret_bytes);

    let plaintext = b"secret FROST key share data";
    let context = b"ceremony-123";

    let encrypted = encrypt_for_recipient(&alice_secret, &bob_public_hex, plaintext, context).unwrap();
    let decrypted = decrypt_from_sender(&bob_secret, &alice_public_hex, &encrypted, context).unwrap();

    assert_eq!(decrypted, plaintext);
}

#[test]
fn test_wrong_recipient_fails() {
    let alice_secret_bytes = b"alice-frost-secret-key-material!";
    let bob_secret_bytes = b"bob-frost-secret-key-bytes-here!";
    let eve_secret_bytes = b"eve-attacker-secret-key-bytes!!";

    let alice_secret = derive_x25519_secret(alice_secret_bytes);
    let eve_secret = derive_x25519_secret(eve_secret_bytes);
    let bob_public_hex = x25519_public_hex(bob_secret_bytes);
    let alice_public_hex = x25519_public_hex(alice_secret_bytes);

    let encrypted = encrypt_for_recipient(&alice_secret, &bob_public_hex, b"secret", b"ctx").unwrap();
    let result = decrypt_from_sender(&eve_secret, &alice_public_hex, &encrypted, b"ctx");
    assert!(result.is_err());
}

#[test]
fn test_x25519_derivation_deterministic() {
    let secret = b"some-frost-secret-key-bytes-here";
    let hex1 = x25519_public_hex(secret);
    let hex2 = x25519_public_hex(secret);
    assert_eq!(hex1, hex2);
    assert_eq!(hex1.len(), 64);
    assert_eq!(derive_x25519_public(secret).len(), 32);
}

#[test]
fn test_x25519_different_keys_different_pubkeys() {
    assert_ne!(x25519_public_hex(b"first-secret"), x25519_public_hex(b"second-secret"));
}

#[test]
fn bad_inputs_are_refused() {
    let secret = derive_x25519_secret(b"k");
    let good = x25519_public_hex(b"other");
    assert_eq!(encrypt_for_recipient(&secret, "zz", b"p", b"c"), Err(ChannelError::BadPublicKeyHex));
    assert_eq!(encrypt_for_recipient(&secret, "abcd", b"p", b"c"), Err(ChannelError::WrongPublicKeyLength));
    assert_eq!(decrypt_from_sender(&secret, &good, &[0u8; 5], b"c"), Err(ChannelError::CiphertextTooShort));
    assert_eq!(decrypt_from_sender(&secret, "abcd", &[0u8; 40], b"c"), Err(ChannelError::WrongPublicKeyLength));
    assert_eq!(decrypt_from_sender(&secret, &good, &[0u8; 40], b"c"), Err(ChannelError::DecryptFailed));
}

#[test]
fn sealed_data_is_nonce_then_ciphertext_with_tag() {
    let a = derive_x25519_secret(b"a");
    let b_pub = x25519_public_hex(b"b");
    let out = encrypt_for_recipient(&a, &b_pub, b"12345", b"ctx").unwrap();
    // 12-byte nonce, 5 bytes of ciphertext, 16-byte tag.
    assert_eq!(out.len(), 12 + 5 + 16);
    let again = encrypt_for_recipient(&a, &b_pub, b"12345", b"ctx").unwrap();
    assert_eq!(out, again);
    let other_ctx = encrypt_for_recipient(&a, &b_pub, b"12345", b"ctx2").unwrap();
    assert_ne!(out, other_ctx);
    let b = derive_x25519_secret(b"b");
    let a_pub = x25519_public_hex(b"a");
    assert!(decrypt_from_sender(&b, &a_pub, &out, b"ctx2").is_err());
}

/// Stands for a member's FROST secret key bytes.
fn member_secret(seed: u8) -> Vec<u8> {
    (0..32u8).map(|i| i.wrapping_mul(7).wrapping_add(seed)).collect()
}

/// Stands for the key shares a dealer hands out.
fn test_shares(n: u8) -> Vec<Vec<u8>> {
    (1..=n).map(|i| vec![i; 48]).collect()
}

#[test]
fn test_encrypted_share_distribution_3_members() {
    let shares = test_shares(3);
    let dealer = member_secret(1);
    let member_a = member_secret(2);
    let member_b = member_secret(3);

    let dealer_secret = derive_x25519_secret(&dealer);
    let dealer_pub_hex = x25519_public_hex(&dealer);

    let recipients = [&member_a, &member_b, &dealer];
    let session_id = "test-session-001";
    let context = format!("frost-share-{}", session_id);

    for (i, member) in recipients.iter().enumerate() {
        let member_pub_hex = x25519_public_hex(member);
        let member_x25519_secret = derive_x25519_secret(member);

        let encrypted =
            encrypt_for_recipient(&dealer_secret, &member_pub_hex, &shares[i], context.as_bytes()).unwrap();
        let decrypted =
            decrypt_from_sender(&member_x25519_secret, &dealer_pub_hex, &encrypted, context.as_bytes()).unwrap();
        assert_eq!(decrypted, shares[i]);
    }
}

#[test]
fn test_encrypted_share_cross_member_fails() {
    let shares = test_shares(3);
    let dealer = member_secret(1);
    let member_a = member_secret(2);
    let member_b = member_secret(3);

    let dealer_secret = derive_x25519_secret(&dealer);
    let dealer_pub_hex = x25519_public_hex(&dealer);
    let a_pub_hex = x25519_public_hex(&member_a);
    let context = b"frost-share-sess-002";

    let encrypted_for_a = encrypt_for_recipient(&dealer_secret, &a_pub_hex, &shares[0], context).unwrap();
    let b_secret = derive_x25519_secret(&member_b);
    let result = decrypt_from_sender(&b_secret, &dealer_pub_hex, &encrypted_for_a, context);
    assert!(result.is_err(), "Member B should not decrypt A's share");
}

#[test]
fn test_encrypted_share_wrong_context_fails() {
    let shares = test_shares(3);
    let dealer = member_secret(1);
    let member = member_secret(2);

    let dealer_secret = derive_x25519_secret(&dealer);
    let dealer_pub_hex = x25519_public_hex(&dealer);
    let member_pub_hex = x25519_public_hex(&member);
    let member_secret_key = derive_x25519_secret(&member);

    let encrypted = encrypt_for_recipient(&dealer_secret, &member_pub_hex, &shares[0], b"context-A").unwrap();
    let result = decrypt_from_sender(&member_secret_key, &dealer_pub_hex, &encrypted, b"context-B");
    assert!(result.is_err(), "Wrong context should fail decryption");
}
