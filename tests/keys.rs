use base64::Engine;
use harmony_agent::keys::{KeyPair, PrivateKey, PublicKey};

#[test]
fn test_generate_keypair() {
    let keypair = KeyPair::generate();
    assert_eq!(keypair.private.as_bytes().len(), 32);
    assert_eq!(keypair.public.as_bytes().len(), 32);
}

#[test]
fn test_private_key_to_base64() {
    let private = PrivateKey::generate();
    let base64_str = private.to_base64();
    assert_eq!(base64_str.len(), 44);
}

#[test]
fn test_private_key_from_base64() {
    let private = PrivateKey::generate();
    let base64_str = private.to_base64();
    let restored = PrivateKey::from_base64(&base64_str).unwrap();
    assert_eq!(private.as_bytes(), restored.as_bytes());
}

#[test]
fn test_public_key_derivation() {
    let private = PrivateKey::generate();
    let public1 = private.public_key();
    let public2 = private.public_key();
    assert_eq!(public1, public2);
}

#[test]
fn test_public_key_base64() {
    let public = PrivateKey::generate().public_key();
    let base64_str = public.to_base64();
    let restored = PublicKey::from_base64(&base64_str).unwrap();
    assert_eq!(public, restored);
}

#[test]
fn test_private_key_not_logged() {
    let private = PrivateKey::generate();
    let debug_str = private.debug_text();
    assert!(debug_str.contains("REDACTED"));
    assert!(!debug_str.contains(&private.to_base64()));
}

#[test]
fn test_invalid_base64() {
    assert!(PrivateKey::from_base64("invalid!@#$").is_err());
}

#[test]
fn test_invalid_length() {
    let short_key = base64::engine::general_purpose::STANDARD.encode([0u8; 16]);
    assert!(PrivateKey::from_base64(&short_key).is_err());
}

#[test]
fn display_form_is_redacted() {
    let private = PrivateKey::from_bytes([7u8; 32]);
    assert_eq!(private.to_string(), "[REDACTED]");
    assert_eq!(private.debug_text(), "PrivateKey([REDACTED])");
    assert!(!private.to_string().contains(&private.to_base64()));
}

#[test]
fn base64_text_of_known_key() {
    let private = PrivateKey::from_bytes([0u8; 32]);
    assert_eq!(private.to_base64(), "AAAAAAAAAAAAAAAAAAAAAAAAAAAAAAAAAAAAAAAAAAA=");
    let public = PublicKey::from_base64("AAAAAAAAAAAAAAAAAAAAAAAAAAAAAAAAAAAAAAAAAAA=").unwrap();
    assert_eq!(public.as_bytes(), &[0u8; 32]);
}

#[test]
fn round_trip_restores_key_and_public() {
    for seed in [1u8, 42, 255] {
        let k = PrivateKey::from_bytes([seed; 32]);
        let restored = PrivateKey::from_base64(&k.to_base64()).unwrap();
        assert_eq!(restored.as_bytes(), k.as_bytes());
        assert_eq!(restored.public_key(), k.public_key());
    }
}

#[test]
fn public_key_is_derived_not_copied() {
    let k = PrivateKey::from_bytes([9u8; 32]);
    assert_ne!(k.public_key().as_bytes(), k.as_bytes());
    let pair = KeyPair::from_private(PrivateKey::from_bytes([9u8; 32]));
    assert_eq!(pair.public, k.public_key());
}

#[test]
fn key_pair_debug_form_hides_private_key() {
    let pair = KeyPair::from_private(PrivateKey::from_bytes([6u8; 32]));
    let text = pair.debug_text();
    assert_eq!(text, format!("KeyPair {{ private: \"[REDACTED]\", public: PublicKey({}) }}", pair.public.to_base64()));
    assert!(!text.contains(&pair.private.to_base64()));
}

#[test]
fn key_text_is_trimmed() {
    let k = PrivateKey::from_bytes([5u8; 32]);
    let text = format!("  {}\n", k.to_base64());
    assert_eq!(PrivateKey::from_base64(&text).unwrap().as_bytes(), k.as_bytes());
    let p = k.public_key();
    assert_eq!(PublicKey::from_base64(&format!("{}\n", p.to_base64())).unwrap(), p);
}

#[test]
fn key_file_contents_and_mode() {
    let k = PrivateKey::from_bytes([8u8; 32]);
    let contents = format!("{}\n", k.to_base64());
    assert_eq!(PrivateKey::from_file_contents(0o100600, &contents).unwrap().as_bytes(), k.as_bytes());
    assert!(matches!(
        PrivateKey::from_file_contents(0o100644, &contents),
        Err(harmony_agent::error::WgAgentError::Permission(_))
    ));
    assert!(matches!(
        PrivateKey::from_file_contents(0o600, "not a key"),
        Err(harmony_agent::error::WgAgentError::Config(_))
    ));
}
