//! Password hashes (Argon2) and the sign-in check.
use argon2::password_hash::{PasswordHash, PasswordHasher, PasswordVerifier, SaltString};
use argon2::Argon2;
use rand::rngs::ThreadRng;
use vstd::prelude::*;

use crate::chat::error::AppError;
use crate::chat::models::User;
use crate::cli::genpass::thread_rng;

verus! {

/// The text is a password hash in the PHC string format that Argon2 reads.
pub uninterp spec fn argon2_hash_parses(hash: Seq<char>) -> bool;

/// Argon2 accepts `password` against the hash `hash`.
pub uninterp spec fn argon2_accepts(password: Seq<char>, hash: Seq<char>) -> bool;

/// A character of the "B64" alphabet (standard Base64 without padding).
pub open spec fn is_b64_char(c: char) -> bool {
    ('A' <= c && c <= 'Z') || ('a' <= c && c <= 'z') || ('0' <= c && c <= '9') || c == '+' || c
        == '/'
}

/// The text is the B64 encoding of 16 bytes: 22 characters of the alphabet,
/// the last of which carries only the two high bits of the final byte.
pub open spec fn fresh_salt_text(s: Seq<char>) -> bool {
    &&& s.len() == 22
    &&& forall|i: int| 0 <= i < 22 ==> #[trigger] is_b64_char(s[i])
    &&& (s[21] == 'A' || s[21] == 'Q' || s[21] == 'g' || s[21] == 'w')
}

/// `SaltString::generate`: 16 random bytes written in B64, handed out as
/// text. Which bytes are drawn is not stated; the text's shape is.
#[verifier::external_body]
fn new_salt(rng: &mut ThreadRng) -> (s: String)
    ensures
        fresh_salt_text(s@),
{
    SaltString::generate(rng).as_str().to_string()
}

/// `SaltString::from_b64` of `salt`, then `PasswordHasher::hash_password` of
/// `Argon2::default()`, written as a PHC string; on failure the error's
/// message. A hash it writes reads back and accepts the password it was made
/// from (as the crate documents). With a salt of 16 bytes in B64 it fails
/// only for a password of more than `u32::MAX` bytes, which a text of at
/// most 0x3fff_ffff characters cannot be.
#[verifier::external_body]
fn argon2_hash(password: &str, salt: &str) -> (r: Result<String, String>)
    ensures
        r matches Ok(h) ==> argon2_hash_parses(h@) && argon2_accepts(password@, h@),
        fresh_salt_text(salt@) && password@.len() <= 0x3fff_ffff ==> r is Ok,
{
    let salt = match SaltString::from_b64(salt) {
        Ok(s) => s,
        Err(e) => return Err(e.to_string()),
    };
    match Argon2::default().hash_password(password.as_bytes(), &salt) {
        Ok(h) => Ok(h.to_string()),
        Err(e) => Err(e.to_string()),
    }
}

/// `PasswordHash::new` then `PasswordVerifier::verify_password` of
/// `Argon2::default()`: fails (with the error's message) exactly when the
/// hash does not read; otherwise whether the password is accepted, named.
#[verifier::external_body]
fn argon2_check(password: &str, hash: &str) -> (r: Result<bool, String>)
    ensures
        r is Ok <==> argon2_hash_parses(hash@),
        r matches Ok(b) ==> b == argon2_accepts(password@, hash@),
{
    match PasswordHash::new(hash) {
        Ok(h) => Ok(Argon2::default().verify_password(password.as_bytes(), &h).is_ok()),
        Err(e) => Err(e.to_string()),
    }
}

/// What checking `password` against `hash` gives: `None` when the hash does
/// not read, else whether the password is accepted.
pub open spec fn password_check(password: Seq<char>, hash: Seq<char>) -> Option<bool> {
    if argon2_hash_parses(hash) {
        Some(argon2_accepts(password, hash))
    } else {
        None
    }
}

/// Hashes a password with a fresh random salt. The hash accepts the password;
/// hashing succeeds for every password of at most 0x3fff_ffff characters.
pub fn hash_password(password: &str) -> (r: Result<String, AppError>)
    ensures
        password@.len() <= 0x3fff_ffff ==> r is Ok,
        r matches Ok(h) ==> password_check(password@, h@) == Some(true),
        r matches Err(e) ==> e is PasswordError,
{
    let mut rng = thread_rng();
    let salt = new_salt(&mut rng);
    match argon2_hash(password, salt.as_str()) {
        Ok(h) => Ok(h),
        Err(m) => Err(AppError::PasswordError(m)),
    }
}

/// Checks a password against a stored hash; a hash that does not read is a
/// password failure.
pub fn verify_password(password: &str, password_hash: &str) -> (r: Result<bool, AppError>)
    ensures
        match password_check(password@, password_hash@) {
            Some(b) => r == Ok::<bool, AppError>(b),
            None => r matches Err(e) && e is PasswordError,
        },
{
    match argon2_check(password, password_hash) {
        Ok(b) => Ok(b),
        Err(m) => Err(AppError::PasswordError(m)),
    }
}

/// The sign-in check on the user found by email (with its stored hash in
/// `password`): the user, with the hash taken out, when the password is
/// accepted; `None` when no user was found or the password is refused.
pub fn verify_user(found: Option<User>, password: &str) -> (r: Result<Option<User>, AppError>)
    ensures
        match found {
            None => r == Ok::<Option<User>, AppError>(None),
            Some(u) => match password_check(password@, u.password@) {
                None => r matches Err(e) && e is PasswordError,
                Some(false) => r == Ok::<Option<User>, AppError>(None),
                Some(true) => r matches Ok(Some(v)) && v.id == u.id && v.username == u.username
                    && v.email == u.email && v.workspace_id == u.workspace_id && v.created_at
                    == u.created_at && v.password@.len() == 0,
            },
        },
{
    match found {
        None => Ok(None),
        Some(user) => {
            let User { id, username, email, password: password_hash, workspace_id, created_at } =
                user;
            let accepted = match verify_password(password, password_hash.as_str()) {
                Ok(b) => b,
                Err(e) => return Err(e),
            };
            if accepted {
                Ok(
                    Some(
                        User {
                            id,
                            username,
                            email,
                            password: String::new(),
                            workspace_id,
                            created_at,
                        },
                    ),
                )
            } else {
                Ok(None)
            }
        },
    }
}

} // verus!
