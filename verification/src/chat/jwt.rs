//! Loading the Ed25519 keys that sign and check users' tokens from their PEM
//! text.
use jwt_simple::algorithms::{Ed25519KeyPair, Ed25519PublicKey};
use vstd::prelude::*;

verus! {

#[verifier::external_type_specification]
#[verifier::external_body]
pub struct ExEd25519KeyPair(Ed25519KeyPair);

#[verifier::external_type_specification]
#[verifier::external_body]
pub struct ExEd25519PublicKey(Ed25519PublicKey);

/// The PEM text holds an Ed25519 private-key block that
/// `Ed25519KeyPair::from_pem` reads.
pub uninterp spec fn signing_pem_parses(pem: Seq<char>) -> bool;

/// The PEM text holds an Ed25519 public key that `Ed25519PublicKey::from_pem`
/// reads.
pub uninterp spec fn verifying_pem_parses(pem: Seq<char>) -> bool;

/// The 64 bytes of the Ed25519 key pair that the PEM text holds (as
/// `Ed25519KeyPair::to_bytes` writes them).
pub uninterp spec fn pem_key_pair_bytes(pem: Seq<char>) -> Seq<u8>;

/// The 32 bytes of the Ed25519 public key that the PEM text holds (as
/// `Ed25519PublicKey::to_bytes` writes them).
pub uninterp spec fn pem_public_key_bytes(pem: Seq<char>) -> Seq<u8>;

/// `Ed25519KeyPair::from_pem` of `jwt-simple`, with the key's bytes from
/// `to_bytes`: succeeds exactly when the text holds a private-key block that
/// reads, named; the 64 bytes are named as a function of the text. On
/// failure the error's message, which is not stated.
#[verifier::external_body]
fn key_pair_from_pem(pem: &str) -> (r: Result<(Ed25519KeyPair, Vec<u8>), String>)
    ensures
        r is Ok <==> signing_pem_parses(pem@),
        r matches Ok((_k, b)) ==> b@ == pem_key_pair_bytes(pem@) && b@.len() == 64,
{
    match Ed25519KeyPair::from_pem(pem) {
        Ok(k) => {
            let b = k.to_bytes();
            Ok((k, b))
        },
        Err(e) => Err(e.to_string()),
    }
}

/// `Ed25519PublicKey::from_pem` of `jwt-simple`, with the key's bytes from
/// `to_bytes`: succeeds exactly when the text holds a public-key block that
/// reads, named; the 32 bytes are named as a function of the text. On
/// failure the error's message, which is not stated.
#[verifier::external_body]
fn public_key_from_pem(pem: &str) -> (r: Result<(Ed25519PublicKey, Vec<u8>), String>)
    ensures
        r is Ok <==> verifying_pem_parses(pem@),
        r matches Ok((_k, b)) ==> b@ == pem_public_key_bytes(pem@) && b@.len() == 32,
{
    match Ed25519PublicKey::from_pem(pem) {
        Ok(k) => {
            let b = k.to_bytes();
            Ok((k, b))
        },
        Err(e) => Err(e.to_string()),
    }
}

/// The key that signs tokens, with its bytes.
pub struct EncodingKey {
    pub key: Ed25519KeyPair,
    pub bytes: Vec<u8>,
}

/// The key that checks tokens, with its bytes.
pub struct DecodingKey {
    pub key: Ed25519PublicKey,
    pub bytes: Vec<u8>,
}

impl EncodingKey {
    /// Reads the signing key from PEM text; fails exactly when the text does
    /// not hold an Ed25519 private key that reads. The key read is the one
    /// whose bytes the text holds.
    pub fn load(pem: &str) -> (r: Result<EncodingKey, String>)
        ensures
            r is Ok <==> signing_pem_parses(pem@),
            r matches Ok(k) ==> k.bytes@ == pem_key_pair_bytes(pem@) && k.bytes@.len() == 64,
    {
        match key_pair_from_pem(pem) {
            Ok((key, bytes)) => Ok(EncodingKey { key, bytes }),
            Err(e) => Err(e),
        }
    }
}

impl DecodingKey {
    /// Reads the checking key from PEM text; fails exactly when the text does
    /// not hold an Ed25519 public key. The key read is the one whose bytes
    /// the text holds.
    pub fn load(pem: &str) -> (r: Result<DecodingKey, String>)
        ensures
            r is Ok <==> verifying_pem_parses(pem@),
            r matches Ok(k) ==> k.bytes@ == pem_public_key_bytes(pem@) && k.bytes@.len() == 32,
    {
        match public_key_from_pem(pem) {
            Ok((key, bytes)) => Ok(DecodingKey { key, bytes }),
            Err(e) => Err(e),
        }
    }
}

} // verus!
