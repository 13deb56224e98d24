use vstd::prelude::*;
use crate::error::SessionError;

verus! {

/// A decoded private key, as russh holds it.
#[verifier::external_type_specification]
#[verifier::external_body]
pub struct ExPrivateKey(russh::keys::PrivateKey);

/// Whether russh decodes the key text `secret` with the passphrase `password`.
pub uninterp spec fn key_decodes(secret: Seq<char>, password: Option<Seq<char>>) -> bool;

/// The characters of an optional passphrase.
pub open spec fn passphrase_view(password: Option<&str>) -> Option<Seq<char>> {
    match password {
        Some(p) => Some(p@),
        None => None,
    }
}

/// Relies on russh::keys::decode_secret_key: it parses OpenSSH, PKCS#1,
/// PKCS#5, PKCS#8 and PuTTY key text, and whether it succeeds depends on the
/// text and the passphrase alone.
#[verifier::external_body]
fn decode_key(secret: &str, password: Option<&str>) -> (r: Option<russh::keys::PrivateKey>)
    ensures
        r is Some <==> key_decodes(secret@, passphrase_view(password)),
{
    russh::keys::decode_secret_key(secret, password).ok()
}

/// Decodes private key material given as text; text that does not decode is
/// a decode error.
pub fn parse_private_key(secret: &str, password: Option<&str>) -> (r: Result<
    russh::keys::PrivateKey,
    SessionError,
>)
    ensures
        r is Ok <==> key_decodes(secret@, passphrase_view(password)),
        r is Err ==> r == Err::<russh::keys::PrivateKey, SessionError>(SessionError::KeyDecode),
{
    match decode_key(secret, password) {
        Some(key) => Ok(key),
        None => Err(SessionError::KeyDecode),
    }
}

} // verus!
