use vstd::prelude::*;

use bcrypt::BcryptError;

use crate::text::digit_char;

verus! {

/// A registered user as stored.
#[derive(Debug, Clone)]
pub struct User {
    pub id: i32,
    pub first_name: Option<String>,
    pub last_name: Option<String>,
    pub email: Option<String>,
    pub password_digest: Option<String>,
}

/// A user about to be registered: the row that registration inserts.
pub struct NewUser {
    pub first_name: String,
    pub last_name: String,
    pub email: String,
    pub password_digest: String,
}

/// Why hashing a password failed, one case for each error of the bcrypt
/// crate.
#[derive(Debug)]
pub enum PasswordHashError {
    /// The cost was outside 4 to 31.
    CostNotAllowed(u32),
    /// A digest was malformed.
    InvalidHash,
    /// The system could not supply randomness for the salt.
    Rand,
    /// The password was longer than 72 bytes where that is refused; this
    /// holds the length plus one.
    Truncation(usize),
}

/// What `bcrypt::verify(password, hash)` gives: `Some(b)` for `Ok(b)` and
/// `None` for an error. It depends on the two texts alone, since the salt
/// and cost are read from the hash.
pub uninterp spec fn spec_bcrypt_verify(password: Seq<char>, hash: Seq<char>) -> Option<bool>;

/// Calls `bcrypt::verify`, which decodes cost and salt from `hash`, hashes
/// `password` with them and compares; an error becomes `None`. Its result
/// is named by `spec_bcrypt_verify`; as its source shows, a hash that is not
/// exactly 60 ASCII bytes long is refused with an error.
#[verifier::external_body]
fn bcrypt_verify(password: &str, hash: &str) -> (r: Option<bool>)
    ensures
        r == spec_bcrypt_verify(password@, hash@),
        hash@.len() != 60 ==> r is None,
{
    bcrypt::verify(password, hash).ok()
}

/// The cost that passwords are hashed with: bcrypt's default cost.
pub const PASSWORD_COST: u32 = 12;

/// The start of a bcrypt digest of version 2b at a cost below 100: `$2b$`,
/// the cost in two decimal digits, and `$`.
pub open spec fn bcrypt_prefix(cost: u32) -> Seq<char> {
    "$2b$"@ + seq![digit_char((cost / 10) as nat), digit_char((cost % 10) as nat)] + "$"@
}

/// Calls `bcrypt::hash` with the given cost and turns its error into a
/// `PasswordHashError`, case for case. As its source shows, it first draws a
/// random salt, which fails only when the system cannot supply randomness
/// (`Rand`), and then refuses a cost outside 4 to 31 (`CostNotAllowed` with
/// that cost); no other error arises. The salt is random, so the digest is
/// not named; what holds of every digest it returns is that it is 60
/// characters long, starts with `$2b$` and the cost in two digits, and that
/// `bcrypt::verify` accepts the same password against it.
#[verifier::external_body]
fn bcrypt_hash(password: &str, cost: u32) -> (r: Result<String, PasswordHashError>)
    ensures
        r matches Ok(h) ==> spec_bcrypt_verify(password@, h@) == Some(true) && h@.len() == 60
            && h@.subrange(0, 7) == bcrypt_prefix(cost),
        !(4 <= cost <= 31) ==> r is Err,
        r matches Err(e) ==> (e is Rand || (e == PasswordHashError::CostNotAllowed(cost) && !(4
            <= cost <= 31))),
{
    match bcrypt::hash(password, cost) {
        Ok(h) => Ok(h),
        Err(BcryptError::CostNotAllowed(c)) => Err(PasswordHashError::CostNotAllowed(c)),
        Err(BcryptError::InvalidHash(_)) => Err(PasswordHashError::InvalidHash),
        Err(BcryptError::Rand(_)) => Err(PasswordHashError::Rand),
        Err(BcryptError::Truncation(n)) => Err(PasswordHashError::Truncation(n)),
    }
}

/// Whether `password` matches the bcrypt digest `hash`; any error, such as
/// a malformed digest, counts as a mismatch.
pub fn verify_password(hash: &str, password: &str) -> (ok: bool)
    ensures
        ok <==> spec_bcrypt_verify(password@, hash@) == Some(true),
        hash@.len() != 60 ==> !ok,
{
    match bcrypt_verify(password, hash) {
        Some(b) => b,
        None => false,
    }
}

/// The row that registers a user, once the password digest has been
/// computed: a failed digest is passed on as it is; otherwise the row holds
/// the given names, email and digest.
pub fn new_user(
    first_name: &str,
    last_name: &str,
    email: &str,
    digest: Result<String, PasswordHashError>,
) -> (r: Result<NewUser, PasswordHashError>)
    ensures
        match digest {
            Ok(d) => r matches Ok(u) && u.first_name@ == first_name@ && u.last_name@ == last_name@
                && u.email@ == email@ && u.password_digest == d,
            Err(e) => r == Err::<NewUser, PasswordHashError>(e),
        },
{
    match digest {
        Ok(password_digest) => Ok(
            NewUser {
                first_name: first_name.to_owned(),
                last_name: last_name.to_owned(),
                email: email.to_owned(),
                password_digest,
            },
        ),
        Err(e) => Err(e),
    }
}

/// The row that registers a user: the given names and email, and a bcrypt
/// digest of the password that verifies against it. It fails only when the
/// system cannot supply randomness.
pub fn create_user(first_name: &str, last_name: &str, email: &str, password: &str) -> (r: Result<
    NewUser,
    PasswordHashError,
>)
    ensures
        r matches Err(e) ==> e is Rand,
        r matches Ok(u) ==> {
            &&& u.first_name@ == first_name@
            &&& u.last_name@ == last_name@
            &&& u.email@ == email@
            &&& spec_bcrypt_verify(password@, u.password_digest@) == Some(true)
            &&& u.password_digest@.len() == 60
            &&& u.password_digest@.subrange(0, 7) == "$2b$12$"@
        },
{
    let digest = bcrypt_hash(password, PASSWORD_COST);
    proof {
        reveal_strlit("$2b$");
        reveal_strlit("$");
        reveal_strlit("$2b$12$");
        assert(bcrypt_prefix(PASSWORD_COST) =~= "$2b$12$"@);
    }
    new_user(first_name, last_name, email, digest)
}

} // verus!
