//! Signing text with a keyed BLAKE3 hash or an Ed25519 key, and checking
//! such signatures.
use ed25519_dalek::{Signature, Signer, SigningKey, Verifier, VerifyingKey};
use rand::rngs::OsRng;
use vstd::prelude::*;
use vstd::utf8::encode_utf8;

use crate::cli::base64::{base64_url_safe, decode_bytes, decoded, encode_bytes, encoded};
use crate::cli::genpass::{is_generated_password, process_genpass};
use crate::cli::opts::{Base64Format, TextSignFormat};

verus! {

/// The keyed BLAKE3 hash (32 bytes) of `data` under the 32-byte `key`.
pub uninterp spec fn blake3_keyed(key: Seq<u8>, data: Seq<u8>) -> Seq<u8>;

/// The public (verifying) half of an Ed25519 secret key.
pub uninterp spec fn ed25519_public(secret: Seq<u8>) -> Seq<u8>;

/// The Ed25519 signature (64 bytes) of `msg` under a secret key.
pub uninterp spec fn ed25519_signature(secret: Seq<u8>, msg: Seq<u8>) -> Seq<u8>;

/// The 32 bytes decode to an Ed25519 verifying key.
pub uninterp spec fn ed25519_key_decodes(public: Seq<u8>) -> bool;

/// `sig` is a valid Ed25519 signature of `msg` under the verifying key `public`.
pub uninterp spec fn ed25519_verifies(public: Seq<u8>, msg: Seq<u8>, sig: Seq<u8>) -> bool;

/// `blake3::keyed_hash`: the 32-byte keyed hash, named.
#[verifier::external_body]
fn keyed_hash(key: &[u8; 32], data: &[u8]) -> (h: [u8; 32])
    ensures
        h@ == blake3_keyed(key@, data@),
{
    *blake3::keyed_hash(key, data).as_bytes()
}

/// `SigningKey::generate` with the operating system's generator: a fresh
/// random secret key. Nothing is stated of which key comes out.
#[verifier::external_body]
fn new_secret_key() -> [u8; 32] {
    SigningKey::generate(&mut OsRng).to_bytes()
}

/// `SigningKey::verifying_key` of the key with these secret bytes: the
/// public half, named.
#[verifier::external_body]
fn public_key_of(secret: &[u8; 32]) -> (p: [u8; 32])
    ensures
        p@ == ed25519_public(secret@),
{
    SigningKey::from_bytes(secret).verifying_key().to_bytes()
}

/// `Signer::sign` of the key with these secret bytes (Ed25519 signing is
/// deterministic): the 64-byte signature, named.
#[verifier::external_body]
fn sign_with(secret: &[u8; 32], msg: &[u8]) -> (s: [u8; 64])
    ensures
        s@ == ed25519_signature(secret@, msg@),
{
    SigningKey::from_bytes(secret).sign(msg).to_bytes()
}

/// `VerifyingKey::from_bytes`: succeeds exactly when the bytes decode to a
/// verifying key, which the public half of every secret key does; on failure
/// the error's message.
#[verifier::external_body]
fn check_public_key(public: &[u8; 32]) -> (r: Result<(), String>)
    ensures
        r is Ok <==> ed25519_key_decodes(public@),
        r is Err ==> forall|s: Seq<u8>| s.len() == 32 ==> #[trigger] ed25519_public(s) != public@,
{
    match VerifyingKey::from_bytes(public) {
        Ok(_k) => Ok(()),
        Err(e) => Err(e.to_string()),
    }
}

/// `Verifier::verify` of the verifying key with these bytes: whether `sig`
/// is a valid signature of `msg`, named; a signature made by the matching
/// secret key is valid (Ed25519 correctness).
#[verifier::external_body]
fn verify_with(public: &[u8; 32], msg: &[u8], sig: &[u8; 64]) -> (ok: bool)
    requires
        ed25519_key_decodes(public@),
    ensures
        ok == ed25519_verifies(public@, msg@, sig@),
        forall|s: Seq<u8>|
            s.len() == 32 && #[trigger] ed25519_public(s) == public@ && ed25519_signature(s, msg@)
                == sig@ ==> ok,
{
    match VerifyingKey::from_bytes(public) {
        Ok(k) => k.verify(msg, &Signature::from_bytes(sig)).is_ok(),
        Err(_e) => false,
    }
}

fn first_32(s: &[u8]) -> (a: [u8; 32])
    requires
        s@.len() >= 32,
    ensures
        a@ == s@.take(32),
{
    let mut a = [0u8; 32];
    let mut i: usize = 0;
    while i < 32
        invariant
            i <= 32,
            s@.len() >= 32,
            forall|j: int| 0 <= j < i ==> a@[j] == s@[j],
        decreases 32 - i,
    {
        a[i] = s[i];
        i = i + 1;
    }
    assert(a@ =~= s@.take(32));
    a
}

fn first_64(s: &[u8]) -> (a: [u8; 64])
    requires
        s@.len() >= 64,
    ensures
        a@ == s@.take(64),
{
    let mut a = [0u8; 64];
    let mut i: usize = 0;
    while i < 64
        invariant
            i <= 64,
            s@.len() >= 64,
            forall|j: int| 0 <= j < i ==> a@[j] == s@[j],
        decreases 64 - i,
    {
        a[i] = s[i];
        i = i + 1;
    }
    assert(a@ =~= s@.take(64));
    a
}

fn to_vec(s: &[u8]) -> (v: Vec<u8>)
    ensures
        v@ == s@,
{
    let mut v: Vec<u8> = Vec::new();
    let mut i: usize = 0;
    while i < s.len()
        invariant
            i <= s@.len(),
            v@ == s@.take(i as int),
        decreases s@.len() - i,
    {
        v.push(s[i]);
        i = i + 1;
        assert(v@ =~= s@.take(i as int));
    }
    assert(s@.take(s@.len() as int) =~= s@);
    v
}

fn bytes_equal(a: &[u8], b: &[u8]) -> (r: bool)
    ensures
        r == (a@ == b@),
{
    if a.len() != b.len() {
        return false;
    }
    let mut i: usize = 0;
    while i < a.len()
        invariant
            a@.len() == b@.len(),
            i <= a@.len(),
            forall|j: int| 0 <= j < i ==> a@[j] == b@[j],
        decreases a@.len() - i,
    {
        if a[i] != b[i] {
            return false;
        }
        i = i + 1;
    }
    assert(a@ =~= b@);
    true
}

/// Why checking a signature failed.
#[derive(Debug, PartialEq, Eq)]
pub enum VerifyFailure {
    /// The signature is not URL-safe base64; the decoder's message.
    Signature(String),
    /// The key does not decode to an Ed25519 verifying key; the message.
    Key(String),
}

/// Signs with a keyed BLAKE3 hash; the same key checks the signature.
pub struct Blake3 {
    pub key: [u8; 32],
}

impl Blake3 {
    /// A new random key: the bytes of a 32-character password drawn from all
    /// four character classes.
    pub fn generate() -> (r: Result<Vec<Vec<u8>>, String>)
        ensures
            r matches Ok(keys) && keys@.len() == 1 && keys@[0]@.len() == 32 && exists|p: Seq<char>|
                is_generated_password(p, 32, true, true, true, true) && #[trigger] encode_utf8(p)
                    == keys@[0]@,
    {
        let password = match process_genpass(32, true, true, true, true) {
            Ok(p) => p,
            Err(e) => return Err(e),
        };
        proof {
            let p = password@;
            assert(vstd::utf8::is_ascii_chars(p)) by {
                reveal_strlit("ABCDEFGHJKLMNPQRSTUVWXYZ");
                reveal_strlit("abcdefghijkmnpqrstuvwxyz");
                reveal_strlit("0123456789");
                reveal_strlit("!#$%&*+-?@^_|~");
                assert forall|i: int| 0 <= i < p.len() implies '\0' <= #[trigger] p[i] <= '\u{7f}' by {
                    let pool = crate::cli::genpass::pool_of(true, true, true, true);
                    assert(pool.contains(p[i]));
                    let j = choose|j: int| 0 <= j < pool.len() && pool[j] == p[i];
                }
            }
            vstd::utf8::is_ascii_chars_encode_utf8(p);
        }
        let bytes = to_vec(password.as_str().as_bytes());
        let mut keys: Vec<Vec<u8>> = Vec::new();
        keys.push(bytes);
        Ok(keys)
    }

    /// A key from the first 32 bytes of `key`.
    pub fn try_from(key: &[u8]) -> (r: Result<Self, String>)
        requires
            key@.len() >= 32,
        ensures
            r matches Ok(b) && b.key@ == key@.take(32),
    {
        Ok(Blake3 { key: first_32(key) })
    }

    /// The signature of `data`: its keyed hash.
    pub fn sign(&self, data: &[u8]) -> (s: Vec<u8>)
        ensures
            s@ == blake3_keyed(self.key@, data@),
    {
        let h = keyed_hash(&self.key, data);
        to_vec(h.as_slice())
    }

    /// Whether `sig` is exactly the keyed hash of `data`; what `sign` wrote
    /// with the same key is accepted.
    pub fn verify(&self, data: &[u8], sig: &[u8]) -> (ok: bool)
        ensures
            ok == (blake3_keyed(self.key@, data@) == sig@),
            sig@ == blake3_keyed(self.key@, data@) ==> ok,
    {
        let h = keyed_hash(&self.key, data);
        bytes_equal(h.as_slice(), sig)
    }
}

/// Signs with an Ed25519 secret key.
pub struct Ed25519Signer {
    pub key: [u8; 32],
}

impl Ed25519Signer {
    /// A new random key pair: the secret half, then the public half.
    pub fn generate() -> (keys: Vec<Vec<u8>>)
        ensures
            keys@.len() == 2,
            keys@[0]@.len() == 32,
            keys@[1]@.len() == 32,
            keys@[1]@ == ed25519_public(keys@[0]@),
    {
        let secret = new_secret_key();
        let public = public_key_of(&secret);
        let mut keys: Vec<Vec<u8>> = Vec::new();
        keys.push(to_vec(secret.as_slice()));
        keys.push(to_vec(public.as_slice()));
        keys
    }

    /// A signer from the first 32 bytes of `key`.
    pub fn try_from(key: &[u8]) -> (r: Result<Self, String>)
        requires
            key@.len() >= 32,
        ensures
            r matches Ok(s) && s.key@ == key@.take(32),
    {
        Ok(Ed25519Signer { key: first_32(key) })
    }

    /// The Ed25519 signature of `data`.
    pub fn sign(&self, data: &[u8]) -> (s: Vec<u8>)
        ensures
            s@ == ed25519_signature(self.key@, data@),
            s@.len() == 64,
    {
        let sig = sign_with(&self.key, data);
        to_vec(sig.as_slice())
    }
}

/// Checks Ed25519 signatures against a verifying key.
pub struct Ed25519Verifier {
    pub key: [u8; 32],
}

impl Ed25519Verifier {
    /// A verifier from the first 32 bytes of `key`; fails when they are not
    /// a verifying key.
    pub fn try_from(key: &[u8]) -> (r: Result<Self, VerifyFailure>)
        requires
            key@.len() >= 32,
        ensures
            r is Ok <==> ed25519_key_decodes(key@.take(32)),
            r matches Ok(v) ==> v.key@ == key@.take(32),
            r matches Err(e) ==> e is Key,
            (exists|s: Seq<u8>| s.len() == 32 && #[trigger] ed25519_public(s) == key@.take(32)) ==> r is Ok,
    {
        let k = first_32(key);
        match check_public_key(&k) {
            Ok(()) => Ok(Ed25519Verifier { key: k }),
            Err(m) => Err(VerifyFailure::Key(m)),
        }
    }

    /// Whether the first 64 bytes of `sig` are a valid signature of `data`.
    /// A signature made with the matching secret key is accepted.
    pub fn verify(&self, data: &[u8], sig: &[u8]) -> (ok: bool)
        requires
            ed25519_key_decodes(self.key@),
            sig@.len() >= 64,
        ensures
            ok == ed25519_verifies(self.key@, data@, sig@.take(64)),
            forall|s: Seq<u8>|
                s.len() == 32 && #[trigger] ed25519_public(s) == self.key@ && ed25519_signature(
                    s,
                    data@,
                ) == sig@.take(64) ==> ok,
    {
        let s = first_64(sig);
        verify_with(&self.key, data, &s)
    }
}

/// The signature bytes of `data` under the first 32 bytes of `key`.
pub open spec fn signature_of(format: TextSignFormat, key: Seq<u8>, data: Seq<u8>) -> Seq<u8> {
    match format {
        TextSignFormat::Blake3 => blake3_keyed(key.take(32), data),
        TextSignFormat::Ed25519 => ed25519_signature(key.take(32), data),
    }
}

/// Generates a key of the given kind: one 32-byte BLAKE3 key (the bytes of a
/// random 32-character password drawn from all four character classes), or
/// an Ed25519 secret key followed by its public half.
pub fn process_generate(format: TextSignFormat) -> (r: Result<Vec<Vec<u8>>, String>)
    ensures
        format == TextSignFormat::Blake3 ==> (r matches Ok(keys) && keys@.len() == 1
            && keys@[0]@.len() == 32 && exists|p: Seq<char>|
            is_generated_password(p, 32, true, true, true, true) && #[trigger] encode_utf8(p)
                == keys@[0]@),
        format == TextSignFormat::Ed25519 ==> (r matches Ok(keys) && keys@.len() == 2
            && keys@[0]@.len() == 32 && keys@[1]@.len() == 32 && keys@[1]@ == ed25519_public(
            keys@[0]@,
        )),
{
    match format {
        TextSignFormat::Blake3 => Blake3::generate(),
        TextSignFormat::Ed25519 => Ok(Ed25519Signer::generate()),
    }
}

/// Signs `data` with (the first 32 bytes of) `key`; the signature is written
/// in URL-safe base64 without padding.
pub fn process_sign(data: &[u8], key: &[u8], format: TextSignFormat) -> (s: String)
    requires
        key@.len() >= 32,
    ensures
        s@ == base64_url_safe(signature_of(format, key@, data@)),
{
    let signed = match format {
        TextSignFormat::Blake3 => {
            let signer = match Blake3::try_from(key) {
                Ok(b) => b,
                Err(_e) => {
                    proof {
                        assert(false);
                    }
                    return String::new();
                },
            };
            signer.sign(data)
        },
        TextSignFormat::Ed25519 => {
            let signer = match Ed25519Signer::try_from(key) {
                Ok(b) => b,
                Err(_e) => {
                    proof {
                        assert(false);
                    }
                    return String::new();
                },
            };
            signer.sign(data)
        },
    };
    encode_bytes(signed.as_slice(), Base64Format::UrlSafeNoPad)
}

/// Checks the signature bytes `sig` of `data` against (the first 32 bytes
/// of) `key`: a BLAKE3 signature must equal the keyed hash; an Ed25519 key
/// must decode, and the first 64 bytes of `sig` must be a valid signature.
pub fn verify_signature(data: &[u8], key: &[u8], sig: &[u8], format: TextSignFormat) -> (r: Result<
    bool,
    VerifyFailure,
>)
    requires
        key@.len() >= 32,
        format == TextSignFormat::Ed25519 ==> sig@.len() >= 64,
    ensures
        format == TextSignFormat::Blake3 ==> r == Ok::<bool, VerifyFailure>(
            blake3_keyed(key@.take(32), data@) == sig@,
        ),
        format == TextSignFormat::Ed25519 ==> (r is Ok <==> ed25519_key_decodes(key@.take(32))),
        format == TextSignFormat::Ed25519 ==> (r matches Ok(ok) ==> ok == ed25519_verifies(
            key@.take(32),
            data@,
            sig@.take(64),
        )),
        format == TextSignFormat::Ed25519 ==> (r matches Err(e) ==> e is Key),
        forall|s: Seq<u8>|
            format == TextSignFormat::Ed25519 && s.len() == 32 && #[trigger] ed25519_public(s)
                == key@.take(32) && ed25519_signature(s, data@) == sig@.take(64) ==> r == Ok::<
                bool,
                VerifyFailure,
            >(true),
{
    match format {
        TextSignFormat::Blake3 => {
            let verifier = match Blake3::try_from(key) {
                Ok(b) => b,
                Err(_e) => {
                    proof {
                        assert(false);
                    }
                    return Ok(false);
                },
            };
            Ok(verifier.verify(data, sig))
        },
        TextSignFormat::Ed25519 => {
            let verifier = match Ed25519Verifier::try_from(key) {
                Ok(v) => v,
                Err(e) => return Err(e),
            };
            Ok(verifier.verify(data, sig))
        },
    }
}

/// Checks a signature written in URL-safe base64: fails when it is not base64
/// or (for Ed25519) the key is not a verifying key. `Ok(None)` when an
/// Ed25519 signature under a verifying key decodes to fewer than 64 bytes, an
/// input the check is not made on. The key is only read once the signature
/// has decoded, so a short key is allowed with a signature that does not.
pub fn process_verify(data: &[u8], key: &[u8], sig: &str, format: TextSignFormat) -> (r: Result<
    Option<bool>,
    VerifyFailure,
>)
    requires
        key@.len() >= 32 || decoded(Base64Format::UrlSafeNoPad, sig@) is None,
    ensures
        decoded(Base64Format::UrlSafeNoPad, sig@) is None ==> (r matches Err(e) && e is Signature),
        decoded(Base64Format::UrlSafeNoPad, sig@) matches Some(b) ==> {
            &&& format == TextSignFormat::Blake3 ==> r == Ok::<Option<bool>, VerifyFailure>(
                Some(blake3_keyed(key@.take(32), data@) == b),
            )
            &&& format == TextSignFormat::Ed25519 ==> (r is Ok <==> ed25519_key_decodes(
                key@.take(32),
            ))
            &&& format == TextSignFormat::Ed25519 ==> (r matches Err(e) ==> e is Key)
            &&& format == TextSignFormat::Ed25519 && ed25519_key_decodes(key@.take(32)) && b.len()
                < 64 ==> r == Ok::<Option<bool>, VerifyFailure>(None)
            &&& format == TextSignFormat::Ed25519 && b.len() >= 64 ==> (r matches Ok(ok) ==> ok
                == Some(ed25519_verifies(key@.take(32), data@, b.take(64))))
        },
        forall|s: Seq<u8>|
            #[trigger] encoded(Base64Format::UrlSafeNoPad, signature_of(format, s, data@)) == sig@
                && s.len() == 32 && (format == TextSignFormat::Ed25519 ==> ed25519_public(s)
                == key@.take(32) && signature_of(format, s, data@).len() == 64) && (format
                == TextSignFormat::Blake3 ==> s == key@.take(32)) ==> r == Ok::<
                Option<bool>,
                VerifyFailure,
            >(Some(true)),
{
    proof {
        assert forall|s: Seq<u8>| s.len() == 32 implies #[trigger] s.take(32) == s by {
            assert(s.take(32) =~= s);
        }
    }
    let sig_bytes = match decode_bytes(sig, Base64Format::UrlSafeNoPad) {
        Ok(b) => b,
        Err(m) => return Err(VerifyFailure::Signature(m)),
    };
    match format {
        TextSignFormat::Blake3 => {
            let verifier = match Blake3::try_from(key) {
                Ok(b) => b,
                Err(_e) => {
                    proof {
                        assert(false);
                    }
                    return Ok(None);
                },
            };
            let ok = verifier.verify(data, sig_bytes.as_slice());
            proof {
                assert forall|s: Seq<u8>|
                    #[trigger] encoded(Base64Format::UrlSafeNoPad, signature_of(format, s, data@))
                        == sig@ && s.len() == 32 && s == key@.take(32) implies ok by {
                    assert(sig_bytes@ == signature_of(format, s, data@));
                }
            }
            Ok(Some(ok))
        },
        TextSignFormat::Ed25519 => {
            let verifier = match Ed25519Verifier::try_from(key) {
                Ok(v) => v,
                Err(e) => return Err(e),
            };
            if sig_bytes.len() < 64 {
                proof {
                    assert forall|s: Seq<u8>|
                        #[trigger] encoded(
                            Base64Format::UrlSafeNoPad,
                            signature_of(format, s, data@),
                        ) == sig@ && s.len() == 32 implies signature_of(format, s, data@).len()
                        != 64 by {
                        assert(sig_bytes@ == signature_of(format, s, data@));
                    }
                }
                return Ok(None);
            }
            let ok = verifier.verify(data, sig_bytes.as_slice());
            proof {
                assert forall|s: Seq<u8>|
                    #[trigger] encoded(Base64Format::UrlSafeNoPad, signature_of(format, s, data@))
                        == sig@ && s.len() == 32 && ed25519_public(s) == key@.take(32)
                        && signature_of(format, s, data@).len() == 64 implies ok by {
                    assert(sig_bytes@ == signature_of(format, s, data@));
                    assert(sig_bytes@.take(64) =~= sig_bytes@);
                    assert(ed25519_signature(s, data@) == sig_bytes@.take(64));
                }
            }
            Ok(Some(ok))
        },
    }
}

/// Checks a signature on every input: a signature that is not URL-safe
/// base64 is refused first; then a key shorter than 32 bytes is refused as a
/// key failure; otherwise the answer is that of `process_verify`.
pub fn verify_with_any_key(data: &[u8], key: &[u8], sig: &str, format: TextSignFormat) -> (r:
    Result<Option<bool>, VerifyFailure>)
    ensures
        decoded(Base64Format::UrlSafeNoPad, sig@) is None ==> (r matches Err(e) && e is Signature),
        decoded(Base64Format::UrlSafeNoPad, sig@) is Some && key@.len() < 32 ==> (r matches Err(
            VerifyFailure::Key(m),
        ) && m@ == "key is shorter than 32 bytes"@),
        key@.len() >= 32 ==> (decoded(Base64Format::UrlSafeNoPad, sig@) matches Some(b) ==> {
            &&& format == TextSignFormat::Blake3 ==> r == Ok::<Option<bool>, VerifyFailure>(
                Some(blake3_keyed(key@.take(32), data@) == b),
            )
            &&& format == TextSignFormat::Ed25519 ==> (r is Ok <==> ed25519_key_decodes(
                key@.take(32),
            ))
            &&& format == TextSignFormat::Ed25519 ==> (r matches Err(e) ==> e is Key)
            &&& format == TextSignFormat::Ed25519 && ed25519_key_decodes(key@.take(32)) && b.len()
                < 64 ==> r == Ok::<Option<bool>, VerifyFailure>(None)
            &&& format == TextSignFormat::Ed25519 && b.len() >= 64 ==> (r matches Ok(ok) ==> ok
                == Some(ed25519_verifies(key@.take(32), data@, b.take(64))))
        }),
        forall|s: Seq<u8>|
            key@.len() >= 32 && #[trigger] encoded(
                Base64Format::UrlSafeNoPad,
                signature_of(format, s, data@),
            ) == sig@ && s.len() == 32 && (format == TextSignFormat::Ed25519 ==> ed25519_public(s)
                == key@.take(32) && signature_of(format, s, data@).len() == 64) && (format
                == TextSignFormat::Blake3 ==> s == key@.take(32)) ==> r == Ok::<
                Option<bool>,
                VerifyFailure,
            >(Some(true)),
{
    if key.len() < 32 {
        match decode_bytes(sig, Base64Format::UrlSafeNoPad) {
            Ok(_b) => Err(VerifyFailure::Key(String::from_str("key is shorter than 32 bytes"))),
            Err(m) => Err(VerifyFailure::Signature(m)),
        }
    } else {
        process_verify(data, key, sig, format)
    }
}

} // verus!
