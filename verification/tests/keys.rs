use base64::Engine;
use wireguard_manager::keys::{generate_keypair, generate_preshared_key, verify_keypair, KeyError};

fn decode(text: &str) -> Vec<u8> {
    base64::engine::general_purpose::STANDARD.decode(text).unwrap()
}

#[test]
fn test_generate_keypair_returns_base64_keys() {
    let kp = generate_keypair();
    assert_eq!(kp.private_key.len(), 44);
    assert_eq!(kp.public_key.len(), 44);
    assert_eq!(decode(&kp.private_key).len(), 32);
    assert_eq!(decode(&kp.public_key).len(), 32);
}

#[test]
fn test_generate_keypair_keys_are_distinct() {
    let kp = generate_keypair();
    assert_ne!(kp.private_key, kp.public_key);
}

#[test]
fn test_generate_keypair_is_nondeterministic() {
    let kp1 = generate_keypair();
    let kp2 = generate_keypair();
    assert_ne!(kp1.private_key, kp2.private_key);
    assert_ne!(kp1.public_key, kp2.public_key);
}

#[test]
fn test_generate_keypair_produces_valid_pair() {
    let kp = generate_keypair();
    assert!(verify_keypair(&kp.private_key, &kp.public_key).unwrap());
}

#[test]
fn test_generate_preshared_key_is_valid_base64() {
    let psk = generate_preshared_key();
    assert_eq!(psk.len(), 44);
    assert_eq!(decode(&psk).len(), 32);
}

#[test]
fn test_generate_preshared_key_is_nondeterministic() {
    assert_ne!(generate_preshared_key(), generate_preshared_key());
}

#[test]
fn test_verify_keypair_valid_pair() {
    let kp = generate_keypair();
    assert!(verify_keypair(&kp.private_key, &kp.public_key).unwrap());
}

#[test]
fn test_verify_keypair_wrong_public_key() {
    let kp1 = generate_keypair();
    let kp2 = generate_keypair();
    assert!(!verify_keypair(&kp1.private_key, &kp2.public_key).unwrap());
}

#[test]
fn test_verify_keypair_short_keys() {
    assert!(!verify_keypair("short", "short").unwrap());
}

#[test]
fn test_verify_keypair_invalid_base64() {
    let bad = "!!!!!!!!!!!!!!!!!!!!!!!!!!!!!!!!!!!!!!!!!!!?";
    assert_eq!(bad.len(), 44);
    assert!(verify_keypair(bad, bad).is_err());
}

#[test]
fn test_public_key_derives_from_private() {
    let kp = generate_keypair();
    let priv_bytes: [u8; 32] = decode(&kp.private_key).try_into().unwrap();
    let secret = x25519_dalek::StaticSecret::from(priv_bytes);
    let derived = x25519_dalek::PublicKey::from(&secret);
    assert_eq!(base64::engine::general_purpose::STANDARD.encode(derived.as_bytes()), kp.public_key);
}

#[test]
fn test_preshared_key_decoded_is_32_bytes() {
    let psk = generate_preshared_key();
    assert_eq!(decode(&psk).len(), 32);
}

#[test]
fn verify_keypair_known_pair() {
    // RFC 7748 test vector: Alice's private key and public key.
    let secret = [
        0x77, 0x07, 0x6d, 0x0a, 0x73, 0x18, 0xa5, 0x7d, 0x3c, 0x16, 0xc1, 0x72, 0x51, 0xb2, 0x66, 0x45, 0xdf, 0x4c,
        0x2f, 0x87, 0xeb, 0xc0, 0x99, 0x2a, 0xb1, 0x77, 0xfb, 0xa5, 0x1d, 0xb9, 0x2c, 0x2a,
    ];
    let public = [
        0x85, 0x20, 0xf0, 0x09, 0x89, 0x30, 0xa7, 0x54, 0x74, 0x8b, 0x7d, 0xdc, 0xb4, 0x3e, 0xf7, 0x5a, 0x0d, 0xbf,
        0x3a, 0x0d, 0x26, 0x38, 0x1a, 0xf4, 0xeb, 0xa4, 0xa9, 0x8e, 0xaa, 0x9b, 0x4e, 0x6a,
    ];
    let engine = base64::engine::general_purpose::STANDARD;
    let s = engine.encode(secret);
    let p = engine.encode(public);
    assert!(verify_keypair(&s, &p).unwrap());
    assert!(!verify_keypair(&p, &s).unwrap());
}

#[test]
fn verify_keypair_invalid_base64_reports_decoder_message() {
    let bad = "!!!!!!!!!!!!!!!!!!!!!!!!!!!!!!!!!!!!!!!!!!!?";
    match verify_keypair(bad, bad) {
        Err(KeyError::InvalidBase64(m)) => {
            let expected = base64::engine::general_purpose::STANDARD.decode(bad).unwrap_err().to_string();
            assert_eq!(m, expected);
        },
        Ok(_) => panic!("expected an error"),
    }
    assert!(!verify_keypair("AAAA", "AAAA").unwrap());
}
