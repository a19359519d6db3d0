//! Secret strings and salted password hashes.

use vstd::prelude::*;
use argon2::password_hash::rand_core::OsRng;
use argon2::password_hash::PasswordHash;
use argon2::password_hash::PasswordHasher;
use argon2::password_hash::PasswordVerifier;
use argon2::password_hash::SaltString;
use argon2::Argon2;
use secrecy::ExposeSecret;
use secrecy::Secret;

verus! {

/// A secret string: a plaintext password, or the salted hash stored for one.
///
/// Trusted: the text lives in a `secrecy::Secret<String>`, which wipes it
/// from memory when the value is dropped and keeps it out of `Debug` output.
#[verifier::external_body]
#[derive(Debug)]
pub struct Password(Secret<String>);

/// The text that a secret string holds.
pub uninterp spec fn password_text(password: Password) -> Seq<char>;

impl View for Password {
    type V = Seq<char>;

    open spec fn view(&self) -> Seq<char> {
        password_text(*self)
    }
}

/// Trusted: calls `secrecy::Secret::new`, which stores its argument as it is.
#[verifier::external_body]
fn conceal(text: String) -> (secret: Password)
    ensures
        password_text(secret) == text@,
{
    Password(Secret::new(text))
}

/// Trusted: calls `secrecy::ExposeSecret::expose_secret`, which hands out a
/// reference to the stored string.
#[verifier::external_body]
fn reveal_text(secret: &Password) -> (text: &str)
    ensures
        text@ == password_text(*secret),
{
    secret.0.expose_secret().as_str()
}

/// Trusted: calls `Clone::clone` of `secrecy::Secret<String>`, which clones
/// the stored string into a new secret.
#[verifier::external_body]
fn copy_secret(secret: &Password) -> (copy: Password)
    ensures
        password_text(copy) == password_text(*secret),
{
    Password(secret.0.clone())
}

impl Clone for Password {
    fn clone(&self) -> (copy: Self)
        ensures
            copy@ == self@,
    {
        copy_secret(self)
    }
}

impl Password {
    /// Takes ownership of `text` and keeps it secret.
    pub fn new(text: String) -> (secret: Password)
        ensures
            secret@ == text@,
    {
        conceal(text)
    }

    /// The secret text itself; callers should not copy it around.
    pub fn expose(&self) -> (text: &str)
        ensures
            text@ == self@,
    {
        reveal_text(self)
    }

    /// Whether the secret holds no character at all.
    pub fn is_empty(&self) -> (empty: bool)
        ensures
            empty == (self@.len() == 0),
    {
        self.expose().is_empty()
    }
}

/// `argon2::password_hash::Error`, what hashing or verifying reports when it
/// fails.
#[verifier::external_type_specification]
#[verifier::external_body]
pub struct ExHashError(argon2::password_hash::Error);

/// Whether Argon2 accepts `password` for the stored hash string `hash`: the
/// string parses as a PHC hash, and hashing `password` again with the salt
/// and parameters written in it gives the digest written in it.
pub uninterp spec fn hash_accepts(hash: Seq<char>, password: Seq<char>) -> bool;

/// Trusted: draws a salt with `SaltString::generate` from the operating
/// system's generator, hashes with `Argon2::default().hash_password` and
/// prints the hash with `to_string`. The salt is random, so the contract
/// names no result: it claims only that a hash which comes back is one that
/// Argon2 accepts for the same password.
#[verifier::external_body]
fn argon2_hash(password: &str) -> (outcome: Result<String, argon2::password_hash::Error>)
    ensures
        outcome matches Ok(hash) ==> hash_accepts(hash@, password@),
{
    let salt = SaltString::generate(&mut OsRng);
    Argon2::default().hash_password(password.as_bytes(), &salt).map(|hash| hash.to_string())
}

/// Trusted: parses `hash` with `PasswordHash::new` and checks `password`
/// against it with `Argon2::default().verify_password`. Both depend on their
/// arguments alone; the contract names the outcome.
#[verifier::external_body]
fn argon2_verify(hash: &str, password: &str) -> (outcome: Result<(), argon2::password_hash::Error>)
    ensures
        outcome is Ok <==> hash_accepts(hash@, password@),
{
    let parsed = PasswordHash::new(hash)?;
    Argon2::default().verify_password(password.as_bytes(), &parsed)
}

/// Why no hash could be computed.
#[derive(Clone, Copy, Debug, PartialEq, Eq, Structural)]
pub enum PasswordError {
    /// The hashing function reported a failure.
    HashingFailed,
}

/// Turns what the hashing function reported into a stored hash.
pub fn stored_hash(outcome: Result<String, argon2::password_hash::Error>) -> (hash: Result<
    Password,
    PasswordError,
>)
    ensures
        match outcome {
            Ok(text) => hash matches Ok(secret) && secret@ == text@,
            Err(_) => hash == Err::<Password, PasswordError>(PasswordError::HashingFailed),
        },
{
    match outcome {
        Ok(text) => Ok(Password::new(text)),
        Err(_) => Err(PasswordError::HashingFailed),
    }
}

/// Hashes a plaintext password with a fresh random salt.
///
/// The salt differs from call to call, so the hash is not determined by the
/// password; whatever hash is returned verifies against the password.
pub fn compute_password_hash(password: &Password) -> (hash: Result<Password, PasswordError>)
    ensures
        hash matches Ok(stored) ==> hash_accepts(stored@, password@),
        hash matches Err(e) ==> e == PasswordError::HashingFailed,
{
    stored_hash(argon2_hash(password.expose()))
}

/// Checks a candidate password against a stored hash. A stored hash that
/// does not parse is rejected like a wrong password.
pub fn verify_password_hash(expected: &Password, candidate: &Password) -> (accepted: bool)
    ensures
        accepted == hash_accepts(expected@, candidate@),
{
    argon2_verify(expected.expose(), candidate.expose()).is_ok()
}

} // verus!
