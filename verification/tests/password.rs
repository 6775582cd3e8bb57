use ize_service_api::utils::password::{hash_password, verify_password};

#[test]
fn hashed_password_verifies() {
    let hash = hash_password("password123").unwrap();
    assert_ne!(hash, "password123");
    assert!(hash.starts_with("$argon2id$"));
    assert!(verify_password("password123", &hash));
}

#[test]
fn wrong_password_is_rejected() {
    let hash = hash_password("password123").unwrap();
    assert!(!verify_password("password124", &hash));
    assert!(!verify_password("", &hash));
}

#[test]
fn malformed_hash_is_rejected() {
    assert!(!verify_password("password123", "not a hash"));
    assert!(!verify_password("password123", ""));
}

#[test]
fn salts_differ_between_hashes() {
    let first = hash_password("same").unwrap();
    let second = hash_password("same").unwrap();
    assert_ne!(first, second);
    assert!(verify_password("same", &first));
    assert!(verify_password("same", &second));
}

#[test]
fn short_passwords_always_hash() {
    for password in ["", "a", "รหัสผ่าน", "pässwörd with spaces", &"x".repeat(1000)] {
        let hash = hash_password(password).unwrap();
        assert!(verify_password(password, &hash));
    }
}

#[test]
fn hash_is_default_argon2id_phc_string() {
    let hash = hash_password("password123").unwrap();
    let head = "$argon2id$v=19$m=19456,t=2,p=1$";
    assert!(hash.starts_with(head));
    assert_eq!(hash.len(), head.len() + 22 + 1 + 43);
    let rest = &hash[head.len()..];
    let (salt, output) = rest.split_at(22);
    assert!(salt.chars().all(|c| c.is_ascii_alphanumeric() || c == '+' || c == '/'));
    assert!(output.starts_with('$'));
    assert!(output[1..].chars().all(|c| c.is_ascii_alphanumeric() || c == '+' || c == '/'));
}

#[test]
fn plain_text_is_never_compared() {
    assert!(!verify_password("abc", "abc"));
    assert!(!verify_password("$argon2id$", "$argon2id$"));
}
