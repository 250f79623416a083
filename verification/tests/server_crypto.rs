use velo::secret::{decrypt, encrypt, encrypt_with_iv, key_from_base64, try_decrypt, KeyProblem};

fn key7() -> Vec<u8> {
    // Base64 of 32 bytes of 7, as VELO_SECRET_KEY would hold it.
    key_from_base64("BwcHBwcHBwcHBwcHBwcHBwcHBwcHBwcHBwcHBwcHBwc=").unwrap()
}

#[test]
fn roundtrip() {
    let key = key7();
    assert_eq!(key, vec![7u8; 32]);
    let enc = encrypt(&key, "hunter2");
    assert!(enc.contains(':'));
    assert_eq!(decrypt(&key, &enc).unwrap(), "hunter2");
}

#[test]
fn fixed_nonce_is_deterministic_and_opaque() {
    let key = key7();
    let iv = [1u8; 12];
    let a = encrypt_with_iv(&key, &iv, "secret password");
    let b = encrypt_with_iv(&key, &iv, "secret password");
    assert_eq!(a, b);
    assert!(a.starts_with("AQEBAQEBAQEBAQEB:"));
    assert!(!a.contains("secret"));
    assert_eq!(decrypt(&key, &a).unwrap(), "secret password");
}

#[test]
fn random_nonces_differ() {
    let key = key7();
    assert_ne!(encrypt(&key, "x"), encrypt(&key, "x"));
}

#[test]
fn decrypt_errors() {
    let key = key7();
    assert_eq!(decrypt(&key, "no-colon").unwrap_err(), "invalid encrypted value");
    assert!(decrypt(&key, "***:AAAA").is_err());
    let enc = encrypt(&key, "pw");
    let other = vec![8u8; 32];
    assert_eq!(decrypt(&other, &enc).unwrap_err(), "decryption failed");
}

#[test]
fn try_decrypt_flags_misfit_nonce() {
    let key = key7();
    // The nonce part decodes to 3 bytes: aes-gcm would panic on it.
    assert!(try_decrypt(&key, "AAAA:AAAA").is_none());
    let enc = encrypt(&key, "pw");
    assert_eq!(try_decrypt(&key, &enc).unwrap().unwrap(), "pw");
}

#[test]
fn key_text_problems() {
    assert_eq!(key_from_base64("  BwcHBwcHBwcHBwcHBwcHBwcHBwcHBwcHBwcHBwcHBwc=\n").unwrap(), vec![7u8; 32]);
    assert_eq!(key_from_base64("not base64!").unwrap_err(), KeyProblem::NotBase64);
    assert_eq!(key_from_base64("AAAA").unwrap_err(), KeyProblem::WrongLength(3));
}
