use transitops_backend::crypto::mask::{mask_account_number, mask_card_last4, mask_email, mask_ip};
use transitops_backend::crypto::{CryptoError, FieldEncryptor};

fn test_encryptor() -> FieldEncryptor {
    FieldEncryptor::from_hex_key(&"00".repeat(32)).unwrap()
}

#[test]
fn round_trip_string() {
    let enc = test_encryptor();
    let ct = enc.encrypt("hello world").unwrap();
    assert_eq!(enc.decrypt(&ct).unwrap(), "hello world");
}

#[test]
fn round_trip_bytes() {
    let enc = test_encryptor();
    let data = b"\x00\x01\x02\xFF";
    let ct = enc.encrypt_bytes(data).unwrap();
    assert_eq!(enc.decrypt_bytes(&ct).unwrap(), data);
}

#[test]
fn different_nonces_each_call() {
    let enc = test_encryptor();
    let ct1 = enc.encrypt("same plaintext").unwrap();
    let ct2 = enc.encrypt("same plaintext").unwrap();
    assert_ne!(ct1, ct2);
}

#[test]
fn wrong_key_fails() {
    let enc1 = test_encryptor();
    let enc2 = FieldEncryptor::from_hex_key(&"AA".repeat(32)).unwrap();
    let ct = enc1.encrypt("secret").unwrap();
    assert!(enc2.decrypt(&ct).is_err());
}

#[test]
fn previous_key_fallback() {
    let old_key = "00".repeat(32);
    let new_key = "AA".repeat(32);
    let old_enc = FieldEncryptor::from_hex_key(&old_key).unwrap();
    let new_enc = FieldEncryptor::from_hex_key(&new_key).unwrap().with_previous_key(&old_key).unwrap();
    let ct = old_enc.encrypt("rotate me").unwrap();
    assert_eq!(new_enc.decrypt(&ct).unwrap(), "rotate me");
}

#[test]
fn short_key_is_rejected() {
    assert!(matches!(FieldEncryptor::from_hex_key("abcd"), Err(CryptoError::InvalidKey(_))));
    assert!(matches!(FieldEncryptor::from_hex_key(&"zz".repeat(32)), Err(CryptoError::InvalidKey(_))));
}

#[test]
fn truncated_blob_fails_to_decrypt() {
    let enc = test_encryptor();
    assert_eq!(enc.decrypt_bytes(&[1, 2, 3]), Err(CryptoError::DecryptFailed));
}

#[test]
fn optional_fields_pass_none_through() {
    let enc = test_encryptor();
    assert_eq!(enc.encrypt_opt(None).unwrap(), None);
    assert_eq!(enc.decrypt_opt(None).unwrap(), None);
    let ct = enc.encrypt_opt(Some("x")).unwrap().unwrap();
    assert_ne!(ct, b"x".to_vec());
    assert_eq!(enc.decrypt_opt(Some(&ct)).unwrap(), Some("x".to_string()));
}

#[test]
fn mask_card_formats() {
    assert_eq!(mask_card_last4("1234"), "****1234");
    assert_eq!(mask_card_last4("9999"), "****9999");
}

#[test]
fn mask_email_formats() {
    assert_eq!(mask_email("john.doe@example.com"), "j***@example.com");
    assert_eq!(mask_email("a@b.com"), "a***@b.com");
    assert_eq!(mask_email("noatsign"), "***");
}

#[test]
fn mask_account_number_formats() {
    assert_eq!(mask_account_number("GB29NWBK60161331926819"), "GB29***6819");
    assert_eq!(mask_account_number("123456789"), "1234***6789");
    assert_eq!(mask_account_number("12345678"), "********");
    assert_eq!(mask_account_number("short"), "*****");
}

#[test]
fn mask_ip_formats() {
    assert_eq!(mask_ip("192.168.1.42"), "192.168.1.xxx");
    assert_eq!(mask_ip("10.0.0.1"), "10.0.0.xxx");
    assert_eq!(mask_ip("2001:db8:85a3:08d3::1"), "2001:db8:xxxx");
}
