use russh::keys::ssh_key::private::Ed25519Keypair;
use russh::keys::ssh_key::{LineEnding, PrivateKey};
use sshcore::error::SessionError;
use sshcore::keys::parse_private_key;

/// The OpenSSH text of an unencrypted ed25519 key derived from a fixed seed.
fn generated_key() -> (PrivateKey, String) {
    let key = PrivateKey::from(Ed25519Keypair::from_seed(&[7u8; 32]));
    let text = key.to_openssh(LineEnding::LF).unwrap().to_string();
    (key, text)
}

#[test]
fn malformed_key_is_decode_error() {
    assert!(matches!(parse_private_key("not a key", None), Err(SessionError::KeyDecode)));
}

#[test]
fn plain_key_decodes_without_passphrase() {
    let (key, text) = generated_key();
    let decoded = parse_private_key(&text, None).unwrap();
    assert_eq!(decoded.public_key(), key.public_key());
}

#[test]
fn damaged_key_text_is_decode_error() {
    let (_, text) = generated_key();
    let damaged: Vec<&str> = text.lines().enumerate().filter(|(i, _)| *i != 1).map(|(_, l)| l).collect();
    let damaged = damaged.join("\n");
    assert!(matches!(parse_private_key(&damaged, None), Err(SessionError::KeyDecode)));
}
