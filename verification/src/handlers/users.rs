use vstd::prelude::*;

use crate::models::property::{str_or_empty, text_or_empty};
use crate::models::user::{create_user, spec_bcrypt_verify, NewUser, PasswordHashError};

verus! {

/// The sign-up form.
pub struct UserForm {
    pub first_name: Option<String>,
    pub last_name: Option<String>,
    pub email: Option<String>,
    pub password: Option<String>,
}

/// Handles a posted sign-up form: the user to register, an absent field
/// counting as empty. It fails only when the system cannot supply
/// randomness.
pub fn create(form: &UserForm) -> (r: Result<NewUser, PasswordHashError>)
    ensures
        r matches Err(e) ==> e is Rand,
        r matches Ok(u) ==> {
            &&& u.first_name@ == text_or_empty(form.first_name)
            &&& u.last_name@ == text_or_empty(form.last_name)
            &&& u.email@ == text_or_empty(form.email)
            &&& spec_bcrypt_verify(text_or_empty(form.password), u.password_digest@) == Some(true)
            &&& u.password_digest@.len() == 60
            &&& u.password_digest@.subrange(0, 7) == "$2b$12$"@
        },
{
    create_user(
        str_or_empty(&form.first_name),
        str_or_empty(&form.last_name),
        str_or_empty(&form.email),
        str_or_empty(&form.password),
    )
}

} // verus!
