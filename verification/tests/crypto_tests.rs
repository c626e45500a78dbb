use dropwire::transfer::chunker::chunk_matches;
use dropwire::crypto::kdf::{derive_auth_token, derive_control_key, derive_stream_key};
use dropwire::crypto::pake::PakeState;
use dropwire::crypto::stream::{decrypt_chunk, encrypt_chunk};
use dropwire::error::DropWireError;

#[test]
fn test_same_inputs_same_outputs() {
    let master = [1u8; 32];
    let stream_key_1 = derive_stream_key(&master, 0);
    let stream_key_2 = derive_stream_key(&master, 0);
    assert_eq!(stream_key_1, stream_key_2);

    let auth_1 = derive_auth_token(&master);
    let auth_2 = derive_auth_token(&master);
    assert_eq!(auth_1, auth_2);

    let ctl_1 = derive_control_key(&master);
    let ctl_2 = derive_control_key(&master);
    assert_eq!(ctl_1, ctl_2);
}

#[test]
fn test_different_stream_ids_different_keys() {
    let master = [2u8; 32];
    let stream_key_0 = derive_stream_key(&master, 0);
    let stream_key_1 = derive_stream_key(&master, 1);
    assert_ne!(stream_key_0, stream_key_1);
}

#[test]
fn test_output_lengths() {
    let master = [3u8; 32];
    let stream_key = derive_stream_key(&master, 0);
    let auth_token = derive_auth_token(&master);
    assert_eq!(stream_key.len(), 32);
    assert_eq!(auth_token.len(), 16);
}

#[test]
fn stream_key_uses_blake3_derive_key_context() {
    let master = [7u8; 32];
    assert_eq!(derive_stream_key(&master, 5), blake3::derive_key("dropwire/stream/0005", &master));
    assert_eq!(derive_stream_key(&master, 0x12345), blake3::derive_key("dropwire/stream/12345", &master));
    assert_eq!(derive_control_key(&master), blake3::derive_key("dropwire/control/v1", &master));
    let full = blake3::derive_key("dropwire/auth/v1", &master);
    assert_eq!(derive_auth_token(&master)[..], full[..16]);
}

#[test]
fn control_and_auth_keys_differ_from_stream_keys() {
    let master = [9u8; 32];
    assert_ne!(derive_control_key(&master), derive_stream_key(&master, 0));
    assert_ne!(derive_auth_token(&master)[..], derive_stream_key(&master, 0)[..16]);
}

#[test]
fn chunk_check_uses_blake3() {
    assert!(chunk_matches(b"abc", blake3::hash(b"abc").as_bytes()));
    assert!(!chunk_matches(b"abd", blake3::hash(b"abc").as_bytes()));
    assert!(!chunk_matches(b"abc", &[0u8; 32]));
}

#[test]
fn stream_test_roundtrip() {
    let key = [42u8; 32];
    let plaintext = b"Hello DropWire Protocol";

    let ciphertext = encrypt_chunk(&key, 1, plaintext).unwrap();
    let decrypted = decrypt_chunk(&key, 1, &ciphertext).unwrap();
    assert_eq!(plaintext.as_slice(), decrypted.as_slice());
    assert_eq!(ciphertext.len(), 23 + 16);
}

#[test]
fn test_tamper() {
    let key = [42u8; 32];
    let plaintext = b"Hello DropWire Protocol";

    let mut ciphertext = encrypt_chunk(&key, 1, plaintext).unwrap();
    let len = ciphertext.len();
    ciphertext[len - 1] ^= 0x01;

    let result = decrypt_chunk(&key, 1, &ciphertext);
    assert!(matches!(result, Err(DropWireError::Crypto(_))));
}

#[test]
fn test_wrong_key() {
    let key = [42u8; 32];
    let wrong_key = [43u8; 32];
    let plaintext = b"Hello DropWire Protocol";

    let ciphertext = encrypt_chunk(&key, 1, plaintext).unwrap();

    let result = decrypt_chunk(&wrong_key, 1, &ciphertext);
    assert!(matches!(result, Err(DropWireError::Crypto(_))));
}

#[test]
fn test_wrong_nonce() {
    let key = [42u8; 32];
    let plaintext = b"Hello DropWire Protocol";

    let ciphertext = encrypt_chunk(&key, 1, plaintext).unwrap();

    let result = decrypt_chunk(&key, 2, &ciphertext);
    assert!(matches!(result, Err(DropWireError::Crypto(_))));
}

#[test]
fn ciphertext_is_plaintext_plus_tag() {
    let key = [1u8; 32];
    let c = encrypt_chunk(&key, 0, b"").unwrap();
    assert_eq!(c.len(), 16);
    let c = encrypt_chunk(&key, 0, &[5u8; 100]).unwrap();
    assert_eq!(c.len(), 116);
    assert_ne!(&c[..100], &[5u8; 100][..]);
}

#[test]
fn test_happy_path() {
    let (alice, alice_msg) = PakeState::new("7-guitar-abandon", "7", true);
    let (bob, bob_msg) = PakeState::new("7-guitar-abandon", "7", false);

    let alice_key = alice.finish(&bob_msg).unwrap();
    let bob_key = bob.finish(&alice_msg).unwrap();

    assert_eq!(alice_key.0, bob_key.0);
}

#[test]
fn pake_test_wrong_password() {
    let (alice, alice_msg) = PakeState::new("7-guitar-abandon", "7", true);
    let (bob, bob_msg) = PakeState::new("7-different-word", "7", false);

    let alice_key = alice.finish(&bob_msg);
    let bob_key = bob.finish(&alice_msg);

    if let (Ok(ak), Ok(bk)) = (alice_key, bob_key) {
        assert_ne!(ak.0, bk.0);
    }
}

#[test]
fn test_identity_point_rejection() {
    let (alice, _) = PakeState::new("7-guitar-abandon", "7", true);

    let zeros = [0u8; 32];
    let res_zeros = alice.finish(&zeros);
    assert!(matches!(res_zeros, Err(DropWireError::Crypto(_))));

    let (alice2, _) = PakeState::new("7-guitar-abandon", "7", true);
    let mut identity = [0u8; 32];
    identity[0] = 1;
    let res_id = alice2.finish(&identity);
    assert!(matches!(res_id, Err(DropWireError::Crypto(_))));
}

#[test]
fn pake_different_channel_gives_different_keys() {
    let (alice, alice_msg) = PakeState::new("7-guitar-abandon", "7", true);
    let (bob, bob_msg) = PakeState::new("7-guitar-abandon", "8", false);
    if let (Ok(ak), Ok(bk)) = (alice.finish(&bob_msg), bob.finish(&alice_msg)) {
        assert_ne!(ak.0, bk.0);
    }
}

#[test]
fn pake_outbound_message_is_kept() {
    let (alice, alice_msg) = PakeState::new("pw", "c", true);
    assert_eq!(alice.outbound_msg, alice_msg);
}
