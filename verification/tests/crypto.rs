use base64::Engine;
use book_studio::crypto::{device_key_from_bytes, is_encrypted, ApiKeyCipher, ENCRYPTED_PREFIX};

#[test]
fn encrypt_then_decrypt_round_trips() {
    let cipher = ApiKeyCipher::new([7u8; 32]);
    let stored = cipher.encrypt("sk-test-密钥").unwrap();
    assert!(stored.starts_with(ENCRYPTED_PREFIX));
    assert!(is_encrypted(&stored));
    assert!(!stored.contains("sk-test"));
    assert_eq!(cipher.decrypt(&stored).unwrap(), "sk-test-密钥");
}

#[test]
fn decrypt_with_another_key_fails() {
    let stored = ApiKeyCipher::new([1u8; 32]).encrypt("secret").unwrap();
    let error = ApiKeyCipher::new([2u8; 32]).decrypt(&stored).unwrap_err();
    assert!(error.message().starts_with("解密 API Key 失败"));
}

#[test]
fn decrypt_rejects_plain_and_malformed_values() {
    let cipher = ApiKeyCipher::new([3u8; 32]);
    assert_eq!(cipher.decrypt("plain").unwrap_err().message(), "API Key 不是预期密文格式");
    assert!(cipher.decrypt("ENC1::***").unwrap_err().message().starts_with("API Key base64 解析失败"));
    assert_eq!(cipher.decrypt("ENC1::AAAA").unwrap_err().message(), "API Key 密文长度无效");
}

#[test]
fn device_key_needs_exactly_32_bytes() {
    assert_eq!(device_key_from_bytes(&[9u8; 32]), Some([9u8; 32]));
    assert_eq!(device_key_from_bytes(&[9u8; 31]), None);
    assert!(!is_encrypted("sk-plain"));
}

#[test]
fn sealed_bytes_are_nonce_plaintext_and_tag() {
    let cipher = ApiKeyCipher::new([3u8; 32]);
    let plaintext = "sk-长度-test";
    let stored = cipher.encrypt(plaintext).unwrap();
    let payload = base64::engine::general_purpose::STANDARD
        .decode(&stored[ENCRYPTED_PREFIX.len()..])
        .unwrap();
    assert_eq!(payload.len(), 12 + plaintext.len() + 16);
}
