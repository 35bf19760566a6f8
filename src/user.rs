use vstd::prelude::*;

verus! {

#[verifier::external_type_specification]
#[verifier::external_body]
pub struct ExBcryptError(bcrypt::BcryptError);

/// What bcrypt finds of a password against a stored hash: whether they match,
/// or `None` where the hash cannot be read.
pub uninterp spec fn bcrypt_verdict(password: Seq<char>, hash: Seq<char>) -> Option<bool>;

/// Relies on bcrypt::verify: it reads cost and salt from `hash`, hashes the
/// password with them and compares, a function of its two arguments; it fails
/// where `hash` is malformed or names a cost out of range.
#[verifier::external_body]
fn bcrypt_verify(password: &str, hash: &str) -> (r: Result<bool, bcrypt::BcryptError>)
    ensures
        match r {
            Ok(m) => bcrypt_verdict(password@, hash@) == Some(m),
            Err(_) => bcrypt_verdict(password@, hash@) is None,
        },
{
    bcrypt::verify(password, hash)
}

/// The failures of user account operations.
#[derive(Clone, Copy, Debug, PartialEq, Eq, Structural)]
pub enum UserError {
    /// No user has the given id.
    EntityNotFound,
    /// The password does not match the stored hash.
    Unauthenticated,
    /// The stored hash cannot be read, or hashing failed.
    Hashing,
    /// A write changed no row although one was expected.
    WriteAnomaly,
    /// The store failed to run the statement or the transaction.
    Store,
}

/// The outcome of checking a password, from bcrypt's verdict.
pub open spec fn password_outcome(verdict: Option<bool>) -> Result<(), UserError> {
    match verdict {
        Some(true) => Ok(()),
        Some(false) => Err(UserError::Unauthenticated),
        None => Err(UserError::Hashing),
    }
}

/// Turns bcrypt's verdict into the outcome of a password check.
pub fn check_password_verdict(verdict: Option<bool>) -> (r: Result<(), UserError>)
    ensures
        r == password_outcome(verdict),
{
    match verdict {
        Some(true) => Ok(()),
        Some(false) => Err(UserError::Unauthenticated),
        None => Err(UserError::Hashing),
    }
}

/// Checks a password against a stored bcrypt hash.
pub fn verify_password(password: &str, hash: &str) -> (r: Result<(), UserError>)
    ensures
        r == password_outcome(bcrypt_verdict(password@, hash@)),
{
    let verdict = match bcrypt_verify(password, hash) {
        Ok(m) => Some(m),
        Err(_) => None,
    };
    check_password_verdict(verdict)
}

/// The outcome of an update or delete of one user: a statement that changed
/// no row names a user that does not exist.
pub fn require_user_found(rows: u64) -> (r: Result<(), UserError>)
    ensures
        r is Ok <==> rows >= 1,
        r is Err ==> r == Err::<(), UserError>(UserError::EntityNotFound),
{
    if rows < 1 {
        Err(UserError::EntityNotFound)
    } else {
        Ok(())
    }
}

/// The outcome of creating a user: a statement that inserted no row is an
/// anomaly.
pub fn require_user_created(rows: u64) -> (r: Result<(), UserError>)
    ensures
        r is Ok <==> rows >= 1,
        r is Err ==> r == Err::<(), UserError>(UserError::WriteAnomaly),
{
    if rows < 1 {
        Err(UserError::WriteAnomaly)
    } else {
        Ok(())
    }
}

} // verus!
