use wink::config::Config;
use wink::errors::WinkError;
use wink::hasher::{verify_password, Hasher};

fn packed(digest: &str, salt: &str) -> String {
    format!("{digest}{salt}")
}

#[test]
fn hash_then_verify_roundtrip() {
    let cfg = Config::standard();
    let (digest, salt) = Hasher::hash("pw1", &cfg).unwrap();
    let stored = packed(&digest, &salt);
    assert!(verify_password(&stored, "pw1", 22));
}

#[test]
fn verify_rejects_other_password() {
    let cfg = Config::standard();
    let (digest, salt) = Hasher::hash("pw1", &cfg).unwrap();
    let stored = packed(&digest, &salt);
    assert!(!verify_password(&stored, "pw2", 22));
    assert!(!verify_password(&stored, "", 22));
}

#[test]
fn salt_has_configured_length_and_alphabet() {
    let cfg = Config::standard();
    let (_, salt) = Hasher::hash("secret", &cfg).unwrap();
    assert_eq!(salt.chars().count(), 22);
    assert!(salt.chars().all(|c| c.is_ascii_alphanumeric() || c == '+' || c == '/'));
}

#[test]
fn digest_is_not_the_password() {
    let cfg = Config::standard();
    let (digest, salt) = Hasher::hash("secret", &cfg).unwrap();
    assert_ne!(digest, "secret");
    assert_ne!(digest, salt);
    assert!(!digest.is_empty());
}

#[test]
fn digest_is_43_base64_characters() {
    let cfg = Config::standard();
    let (digest, salt) = Hasher::hash("secret", &cfg).unwrap();
    assert_eq!(digest.chars().count(), 43);
    assert!(digest.chars().all(|c| c.is_ascii_alphanumeric() || c == '+' || c == '/'));
    assert!(!digest.contains('$'));
    let (again, _) = Hasher::hash_with_salt("other", &salt).unwrap();
    assert_eq!(again.chars().count(), 43);
    assert!(!again.contains('$'));
}

#[test]
fn hash_with_salt_is_deterministic() {
    let cfg = Config::standard();
    let (digest, salt) = Hasher::hash("pw1", &cfg).unwrap();
    let (again, echoed) = Hasher::hash_with_salt("pw1", &salt).unwrap();
    assert_eq!(again, digest);
    assert_eq!(echoed, salt);
    let (third, _) = Hasher::hash_with_salt("pw1", &salt).unwrap();
    assert_eq!(third, digest);
}

#[test]
fn hash_with_salt_differs_per_password() {
    let cfg = Config::standard();
    let (digest, salt) = Hasher::hash("pw1", &cfg).unwrap();
    let (other, _) = Hasher::hash_with_salt("pw2", &salt).unwrap();
    assert_ne!(other, digest);
}

#[test]
fn hash_with_salt_rejects_short_salt() {
    let r = Hasher::hash_with_salt("pw", "ab");
    assert_eq!(r.unwrap_err(), WinkError::InvalidCredentials);
}

#[test]
fn hash_with_salt_rejects_bad_characters() {
    let r = Hasher::hash_with_salt("pw", "not a valid salt!");
    assert_eq!(r.unwrap_err(), WinkError::InvalidCredentials);
}

#[test]
fn verify_rejects_malformed_stored_credential() {
    assert!(!verify_password("short", "pw", 22));
    assert!(!verify_password("", "pw", 22));
}

#[test]
fn supported_salt_lengths_roundtrip() {
    for nano in [8usize, 16, 33, 48] {
        let cfg = Config { nano_length: nano, wink_length: 8, session_lifetime: 86400 };
        let salt_len = cfg.salt_length_exec();
        let (digest, salt) = Hasher::hash("pw1", &cfg).unwrap();
        assert_eq!(salt.chars().count(), salt_len);
        let stored = packed(&digest, &salt);
        assert!(verify_password(&stored, "pw1", salt_len));
        assert!(!verify_password(&stored, "pw2", salt_len));
    }
}
