use chat_auth::signer::{constant_time_eq, sign, verify, ConfigError, SigningKey, TAG_LEN};

#[test]
fn sign_gives_the_hmac_sha256_tag() {
    let key = SigningKey::new("key").unwrap();
    let tag = sign(b"The quick brown fox jumps over the lazy dog", &key);
    let expected: [u8; 32] = [
        247, 188, 131, 244, 48, 83, 132, 36, 177, 50, 152, 230, 170, 111, 177, 67, 239, 77, 89,
        161, 73, 70, 23, 89, 151, 71, 157, 188, 45, 26, 60, 216,
    ];
    assert_eq!(tag, expected.to_vec());
    assert_eq!(tag.len(), TAG_LEN);
}

#[test]
fn sign_is_deterministic_and_depends_on_both_arguments() {
    let key = SigningKey::new("top-secret").unwrap();
    let other = SigningKey::new("other-secret").unwrap();
    let expected: [u8; 32] = [
        232, 94, 108, 238, 104, 160, 200, 89, 202, 236, 72, 19, 122, 17, 69, 255, 125, 133, 184,
        186, 239, 36, 235, 76, 87, 108, 215, 41, 225, 23, 171, 64,
    ];
    assert_eq!(sign(b"hello", &key), expected.to_vec());
    assert_eq!(sign(b"hello", &key), sign(b"hello", &key));
    assert_ne!(sign(b"hello", &key), sign(b"hellp", &key));
    assert_ne!(sign(b"hello", &key), sign(b"hello", &other));
}

#[test]
fn verify_accepts_the_tag_and_nothing_else() {
    let key = SigningKey::new("top-secret").unwrap();
    let tag = sign(b"message", &key);
    assert!(verify(b"message", &key, &tag));
    assert!(!verify(b"messagf", &key, &tag));
    assert!(!verify(b"message", &key, &tag[..31]));
    assert!(!verify(b"message", &key, b""));
    let mut changed = tag.clone();
    changed[31] ^= 1;
    assert!(!verify(b"message", &key, &changed));
    let other = SigningKey::new("other-secret").unwrap();
    assert!(!verify(b"message", &other, &tag));
}

#[test]
fn empty_message_can_be_signed() {
    let key = SigningKey::new("k").unwrap();
    let tag = sign(b"", &key);
    assert_eq!(tag.len(), 32);
    assert!(verify(b"", &key, &tag));
}

#[test]
fn empty_secret_is_a_configuration_error() {
    assert!(matches!(SigningKey::new(""), Err(ConfigError::MissingSecret)));
    assert!(matches!(SigningKey::from_setting(None), Err(ConfigError::MissingSecret)));
    assert!(matches!(SigningKey::from_setting(Some("")), Err(ConfigError::MissingSecret)));
    assert!(SigningKey::from_setting(Some("s")).is_ok());
    assert!(SigningKey::new(" ").is_ok());
}

#[test]
fn constant_time_eq_is_equality() {
    assert!(constant_time_eq(b"", b""));
    assert!(constant_time_eq(b"abc", b"abc"));
    assert!(!constant_time_eq(b"abc", b"abd"));
    assert!(!constant_time_eq(b"abc", b"bbc"));
    assert!(!constant_time_eq(b"abc", b"ab"));
    assert!(!constant_time_eq(b"", b"a"));
    assert!(!constant_time_eq(&[0x00, 0x01], &[0x01, 0x00]));
    assert!(!constant_time_eq(&[0x80], &[0x00]));
}
