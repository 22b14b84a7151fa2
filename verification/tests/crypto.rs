use flock::crypto::{decrypt_would_panic, CredentialCipher, CryptoError};
use flock::hex::{decode_hex, encode_hex, hex_would_panic, HexError};

const PREFIX: &str = "flock-enc-v1:";

fn cipher() -> CredentialCipher {
    CredentialCipher::generate()
}

#[test]
fn round_trips_a_password() {
    let cipher = cipher();
    let encrypted = cipher.encrypt("birddog").unwrap();
    assert_ne!(encrypted, "birddog");
    assert!(encrypted.starts_with(PREFIX));
    assert_eq!(cipher.decrypt_or_pass_through(&encrypted).unwrap(), "birddog");
}

#[test]
fn passes_through_legacy_plaintext_unchanged() {
    let cipher = cipher();
    assert_eq!(cipher.decrypt_or_pass_through("birddog").unwrap(), "birddog");
}

#[test]
fn key_file_persists_across_reload() {
    let first = cipher();
    let key_file_text = format!("{}\n", first.key_hex());
    let encrypted = first.encrypt("secret").unwrap();
    assert!(!hex_would_panic(key_file_text.trim()));
    let reloaded = CredentialCipher::from_key_text(&key_file_text).unwrap();
    assert_eq!(reloaded.decrypt_or_pass_through(&encrypted).unwrap(), "secret");
}

#[test]
fn same_nonce_and_key_give_the_same_written_form() {
    let key: Vec<u8> = (0u8..32).collect();
    let c = CredentialCipher::from_key(key).unwrap();
    let nonce = [7u8; 12];
    let a = c.encrypt_with_nonce("pw", &nonce).unwrap();
    let b = c.encrypt_with_nonce("pw", &nonce).unwrap();
    assert_eq!(a, b);
    assert!(a.starts_with("flock-enc-v1:070707070707070707070707:"));
    assert_eq!(c.decrypt_or_pass_through(&a).unwrap(), "pw");
}

#[test]
fn each_decryption_error_has_its_input() {
    let c = cipher();
    let other = cipher();
    assert_eq!(c.decrypt_or_pass_through("flock-enc-v1:abcd"), Err(CryptoError::Malformed));
    assert_eq!(
        c.decrypt_or_pass_through("flock-enc-v1:abc:00"),
        Err(CryptoError::Hex(HexError::OddLength))
    );
    assert_eq!(
        c.decrypt_or_pass_through("flock-enc-v1:zz:00"),
        Err(CryptoError::Hex(HexError::InvalidDigit))
    );
    assert_eq!(c.decrypt_or_pass_through("flock-enc-v1:0011:00"), Err(CryptoError::NonceLength));
    let sealed = other.encrypt("x").unwrap();
    assert_eq!(c.decrypt_or_pass_through(&sealed), Err(CryptoError::Decrypt));
}

#[test]
fn keys_must_be_32_bytes_of_hex() {
    assert!(matches!(
        CredentialCipher::from_key(vec![1, 2, 3]),
        Err(CryptoError::KeyLength(3))
    ));
    assert!(matches!(
        CredentialCipher::from_key_text("  0a0b  "),
        Err(CryptoError::KeyLength(2))
    ));
    assert!(matches!(
        CredentialCipher::from_key_text("xyz"),
        Err(CryptoError::Hex(HexError::OddLength))
    ));
    let c = CredentialCipher::from_key(vec![0xab; 32]).unwrap();
    assert_eq!(c.key_hex(), "ab".repeat(32));
}

#[test]
fn hex_round_trips_and_rejects() {
    let bytes = vec![0u8, 1, 0x7f, 0x80, 0xff];
    let text = encode_hex(&bytes);
    assert_eq!(text, "00017f80ff");
    assert_eq!(decode_hex(&text).unwrap(), bytes);
    assert_eq!(decode_hex("ABcd").unwrap(), vec![0xab, 0xcd]);
    assert_eq!(decode_hex("+f").unwrap(), vec![0x0f]);
    assert_eq!(decode_hex("abc"), Err(HexError::OddLength));
    assert_eq!(decode_hex("0g"), Err(HexError::InvalidDigit));
}

#[test]
fn slicing_through_a_character_is_detected() {
    assert!(hex_would_panic("0é0"));
    assert!(!hex_would_panic("0g"));
    assert!(!hex_would_panic("00"));
    assert!(decrypt_would_panic("flock-enc-v1:0é0:00"));
    assert!(!decrypt_would_panic("flock-enc-v1:00:00"));
    assert!(!decrypt_would_panic("plain é"));
}
