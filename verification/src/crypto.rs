//! One-way confidentiality between many submitters and a single reader.
//!
//! Any participant can encrypt a message for the evaluator's public key;
//! only the holder of the private key can read it.  The RSA primitives are
//! trusted; the message encoding around them is verified.
use vstd::prelude::*;

use crate::codec::decode_message;
use crate::codec::encode_message;
use crate::codec::spec_decode_message;
use crate::codec::spec_message_encodable;
use crate::codec::Message;
use crate::HandleError;

verus! {

#[verifier::external_type_specification]
#[verifier::external_body]
pub struct ExRsaPublicKey(rsa::RsaPublicKey);

#[verifier::external_type_specification]
#[verifier::external_body]
pub struct ExRsaPrivateKey(rsa::RsaPrivateKey);

#[verifier::external_type_specification]
#[verifier::external_body]
pub struct ExRsaError(rsa::Error);

/// Relies on rsa's `RsaPublicKey::encrypt` with PKCS#1 v1.5 padding: the
/// scheme is randomized, so nothing can be promised of the ciphertext; the
/// call returns an error when the plaintext exceeds the key's payload
/// capacity or the library-level step fails.
#[verifier::external_body]
fn rsa_encrypt(public_key: &rsa::RsaPublicKey, plaintext: &[u8]) -> Result<Vec<u8>, rsa::Error> {
    let mut rng = rand::rngs::OsRng;
    public_key.encrypt(&mut rng, rsa::Pkcs1v15Encrypt, plaintext)
}

/// What decrypting a ciphertext with a private key yields: the payload, or
/// nothing when the ciphertext is malformed or corrupted.  Decryption draws
/// no entropy, so the outcome is a function of the key and the bytes alone.
pub uninterp spec fn spec_rsa_decrypt(
    private_key: rsa::RsaPrivateKey,
    ciphertext: Seq<u8>,
) -> Option<Seq<u8>>;

/// Relies on rsa's `RsaPrivateKey::decrypt` with PKCS#1 v1.5 padding: it
/// returns the payload of a well-formed ciphertext and an error on a
/// malformed or corrupted one, deterministically (the call uses no
/// blinding, so the result depends on the key and the ciphertext alone).
#[verifier::external_body]
fn rsa_decrypt(private_key: &rsa::RsaPrivateKey, ciphertext: &[u8]) -> (r: Result<
    Vec<u8>,
    rsa::Error,
>)
    ensures
        r matches Ok(b) ==> spec_rsa_decrypt(*private_key, ciphertext@) == Some(b@),
        r is Err ==> spec_rsa_decrypt(*private_key, ciphertext@) is None,
{
    private_key.decrypt(rsa::Pkcs1v15Encrypt, ciphertext)
}

/// Encrypts a message for the evaluator: canonical byte encoding, then RSA.
///
/// `EncodingError` comes exactly when the message does not fit the wire
/// format; `CryptoError` when the encryption step itself fails.
pub fn encrypt_message(message: &Message, public_key: &rsa::RsaPublicKey) -> (r: Result<
    Vec<u8>,
    HandleError,
>)
    ensures
        !spec_message_encodable(message@) <==> r == Err::<Vec<u8>, HandleError>(
            HandleError::EncodingError,
        ),
        r matches Err(e) ==> e == HandleError::EncodingError || e == HandleError::CryptoError,
{
    let plain = match encode_message(message) {
        Ok(b) => b,
        Err(e) => {
            return Err(e);
        },
    };
    match rsa_encrypt(public_key, plain.as_slice()) {
        Ok(ciphertext) => Ok(ciphertext),
        Err(_) => Err(HandleError::CryptoError),
    }
}

/// Decrypts a ciphertext with the evaluator's private key and reads the
/// message back from the canonical byte encoding.
///
/// `CryptoError` exactly when the ciphertext does not decrypt;
/// `EncodingError` exactly when the decrypted bytes are not the encoding of
/// a message; otherwise exactly the message those bytes encode.
pub fn decrypt_message(encrypted_message: &[u8], private_key: &rsa::RsaPrivateKey) -> (r: Result<
    Message,
    HandleError,
>)
    ensures
        spec_rsa_decrypt(*private_key, encrypted_message@) is None ==> r == Err::<
            Message,
            HandleError,
        >(HandleError::CryptoError),
        spec_rsa_decrypt(*private_key, encrypted_message@) matches Some(b) ==> (
        spec_decode_message(b) is None ==> r == Err::<Message, HandleError>(
            HandleError::EncodingError,
        )),
        spec_rsa_decrypt(*private_key, encrypted_message@) matches Some(b) ==> (
        spec_decode_message(b) matches Some(mv) ==> (r matches Ok(m) && m@ == mv)),
{
    let plain = match rsa_decrypt(private_key, encrypted_message) {
        Ok(b) => b,
        Err(_) => {
            return Err(HandleError::CryptoError);
        },
    };
    match decode_message(plain.as_slice()) {
        Ok(m) => Ok(m),
        Err(_) => Err(HandleError::EncodingError),
    }
}

} // verus!
