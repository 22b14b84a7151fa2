use flock::crypto::{CredentialCipher, CryptoError};
use flock::device::{Device, DeviceCredentials, DeviceId};
use flock::vault::{open_passwords, seal_passwords};

fn device(name: &str, password: Option<&str>) -> Device {
    Device {
        id: DeviceId::new(),
        name: name.to_string(),
        host: "h".to_string(),
        tags: vec!["t".to_string()],
        credentials: DeviceCredentials { password: password.map(str::to_string) },
        discovered: true,
    }
}

#[test]
fn stored_passwords_are_encrypted_and_read_back() {
    let cipher = CredentialCipher::generate();
    let devices = vec![device("a", Some("birddog")), device("b", None)];
    let sealed = seal_passwords(&cipher, &devices).unwrap();
    let stored = sealed[0].credentials.password.clone().unwrap();
    assert!(stored.starts_with("flock-enc-v1:"));
    assert!(!stored.contains("birddog"));
    assert_eq!(sealed[1].credentials.password, None);
    assert_eq!(sealed[0].name, "a");
    assert_eq!(open_passwords(&cipher, &sealed).unwrap(), devices);
}

#[test]
fn legacy_plaintext_passwords_read_as_they_stand() {
    let cipher = CredentialCipher::generate();
    let devices = vec![device("a", Some("plain"))];
    assert_eq!(open_passwords(&cipher, &devices).unwrap(), devices);
}

#[test]
fn a_foreign_key_fails_the_read() {
    let sealed = seal_passwords(&CredentialCipher::generate(), &vec![device("a", Some("x"))]).unwrap();
    assert_eq!(
        open_passwords(&CredentialCipher::generate(), &sealed),
        Err(CryptoError::Decrypt)
    );
}
