//! The password-hashing primitive, behind a trusted boundary.

use vstd::prelude::*;

verus! {

/// Failure of the password-hashing primitive; fatal to the process.
#[derive(Debug, PartialEq, Eq, Structural, Clone, Copy)]
pub struct HashFailure;

/// The hashing cost used for login entries, traded low for CLI
/// responsiveness.
pub const LOGIN_HASH_COST: u32 = 5;

/// Relies on `bcrypt::hash`: on success the result is the 60-character string
/// `$2b$` + two cost digits + `$` + 53 characters of bcrypt base64
/// (`./A-Za-z0-9`), so it holds neither `:` nor a newline. The salt is drawn
/// fresh on every call, so nothing further is promised of the value; a cost
/// outside 4..=31 is refused by the primitive.
#[verifier::external_body]
fn bcrypt_hash(password: &str, cost: u32) -> (r: Result<String, HashFailure>)
    requires
        4 <= cost <= 31,
    ensures
        match r {
            Ok(h) => h@.len() == 60 && h@[0] == '$' && forall|i: int|
                0 <= i < h@.len() ==> h@[i] != ':' && h@[i] != '\n',
            Err(e) => true,
        },
{
    match bcrypt::hash(password, cost) {
        Ok(h) => Ok(h),
        Err(_) => Err(HashFailure),
    }
}

/// Hashes a password for storage in a login group, at the fixed cost.
pub fn hash_password(password: &str) -> (r: Result<String, HashFailure>)
    ensures
        match r {
            Ok(h) => h@.len() == 60 && h@[0] == '$' && forall|i: int|
                0 <= i < h@.len() ==> h@[i] != ':' && h@[i] != '\n',
            Err(e) => true,
        },
{
    bcrypt_hash(password, LOGIN_HASH_COST)
}

} // verus!
