use nullchain::hash::Hash256;
use nullchain::hashing::{derive_address, double_hash, hash_block_header, hash_data};
use nullchain::keys::{generate_keypair, sign_message, verify_signature, xor_bytes};

#[test]
fn test_hash_deterministic() {
    let data = b"nullchain";
    let hash1 = hash_data(data);
    let hash2 = hash_data(data);
    assert_eq!(hash1, hash2);
}

#[test]
fn test_double_hash_different() {
    let data = b"test";
    let single = hash_data(data);
    let double = double_hash(data);
    assert_ne!(single, double);
}

#[test]
fn test_hash_matches_underlying_function() {
    let data = b"consensus bytes";
    assert_eq!(hash_data(data).as_bytes(), blake3::hash(data).as_bytes());

    let first = blake3::hash(data);
    let second = blake3::hash(first.as_bytes());
    assert_eq!(double_hash(data).as_bytes(), second.as_bytes());
    assert_eq!(hash_block_header(data), double_hash(data));
}

#[test]
fn test_keypair_generation() {
    let (signing_key, verifying_key) = generate_keypair();
    assert_eq!(
        signing_key.verifying_key().as_bytes(),
        verifying_key.as_bytes()
    );
}

#[test]
fn test_sign_and_verify() {
    let (signing_key, verifying_key) = generate_keypair();
    let message = b"nullchain: privacy is mandatory, not optional";

    let signature = sign_message(&signing_key, message);
    assert!(verify_signature(&verifying_key, message, &signature));
}

#[test]
fn test_verify_tampered_message() {
    let (signing_key, verifying_key) = generate_keypair();
    let message = b"original message";
    let signature = sign_message(&signing_key, message);

    let tampered = b"tampered message";
    assert!(!verify_signature(&verifying_key, tampered, &signature));
}

#[test]
fn test_verify_malformed_signature() {
    let (_, verifying_key) = generate_keypair();
    let message = b"test";

    // Too short
    let bad_sig = vec![0u8; 32];
    assert!(!verify_signature(&verifying_key, message, &bad_sig));

    // Too long
    let bad_sig = vec![0u8; 128];
    assert!(!verify_signature(&verifying_key, message, &bad_sig));
}

#[test]
fn test_derive_address_layout() {
    let public_key = [3u8; 32];
    let address = derive_address(&public_key);

    let hash = blake3::hash(&public_key);
    let mut expected = String::from("null1");
    for byte in &hash.as_bytes()[0..20] {
        expected.push_str(&format!("{:02x}", byte));
    }
    assert_eq!(address, expected);
    assert_eq!(address.len(), 45);
}

#[test]
fn test_xor_bytes_round_trip() {
    let data = b"secret key material bytes";
    let key = Hash256::from_bytes(*blake3::hash(b"passphrase").as_bytes());

    let encrypted = xor_bytes(data, key.as_bytes());
    assert_ne!(&encrypted[..], &data[..]);
    let decrypted = xor_bytes(&encrypted, key.as_bytes());
    assert_eq!(&decrypted[..], &data[..]);
}
