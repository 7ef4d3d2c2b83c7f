use vstd::prelude::*;

use axum_extra::extract::cookie::SignedCookieJar;

use super::{jar_add, jar_remove, signed_jar_http_only, signed_jar_values, spec_user_id};
use crate::models::property::{str_or_empty, text_or_empty};
use crate::models::user::{spec_bcrypt_verify, verify_password, User};
use crate::text::{i32_to_string, lemma_parse_decimal_roundtrip, spec_i32_decimal};

verus! {

/// The sign-in form, which also signs out when `_method` is `delete`.
pub struct SessionForm {
    pub email: Option<String>,
    pub password: Option<String>,
    pub _method: Option<String>,
}

/// Whether a form asks to sign out: its `_method` field is `delete`.
pub open spec fn asks_delete(method: Option<String>) -> bool {
    method matches Some(m) && m@ == "delete"@
}

/// Whether the text of a form field is `delete`.
pub fn is_delete(method: &Option<String>) -> (r: bool)
    ensures
        r == asks_delete(*method),
{
    match method {
        Some(m) => {
            let delete = "delete".to_owned();
            *m == delete
        },
        None => false,
    }
}

/// What a posted session form asks for.
pub enum SessionRequest {
    /// Signed out: the jar without the `user_id` cookie; redirect home.
    SignedOut(SignedCookieJar),
    /// Sign in: the user with this email has to be looked up, then
    /// `sign_in` decides with this password.
    SignIn { jar: SignedCookieJar, email: String, password: String },
}

/// Handles a posted session form up to the user lookup: signs out when the
/// form says `delete`, and otherwise asks to sign in with its email and
/// password, an absent field counting as empty.
pub fn create_or_delete(jar: SignedCookieJar, form: &SessionForm) -> (r: SessionRequest)
    ensures
        asks_delete(form._method) ==> (r matches SessionRequest::SignedOut(j) && signed_jar_values(
            j,
        ) == signed_jar_values(jar).remove("user_id"@) && signed_jar_http_only(j)
            == signed_jar_http_only(jar).remove("user_id"@)),
        !asks_delete(form._method) ==> (r matches SessionRequest::SignIn { jar: j, email, password }
            && j == jar && email@ == text_or_empty(form.email) && password@ == text_or_empty(
            form.password,
        )),
{
    if is_delete(&form._method) {
        SessionRequest::SignedOut(jar_remove(jar, "user_id"))
    } else {
        SessionRequest::SignIn {
            jar,
            email: str_or_empty(&form.email).to_owned(),
            password: str_or_empty(&form.password).to_owned(),
        }
    }
}

/// Whether `password` signs in `u`: it verifies against the stored digest,
/// an absent digest counting as empty.
pub open spec fn password_accepted(u: User, password: Seq<char>) -> bool {
    spec_bcrypt_verify(password, text_or_empty(u.password_digest)) == Some(true)
}

/// Finishes a sign-in once the user with the given email has been looked up:
/// when there is such a user and the password verifies against its digest,
/// the jar gets a signed, HTTP-only `user_id` cookie with the user's id;
/// otherwise there is no signed-in jar and the form is shown again.
pub fn sign_in(jar: SignedCookieJar, user: Option<User>, password: &str) -> (r: Option<
    SignedCookieJar,
>)
    ensures
        r is Some <==> (user matches Some(u) && password_accepted(u, password@)),
        r matches Some(j) ==> signed_jar_values(j) == signed_jar_values(jar).insert(
            "user_id"@,
            spec_i32_decimal(user->0.id),
        ) && signed_jar_http_only(j) == signed_jar_http_only(jar).insert("user_id"@),
{
    match user {
        Some(u) => {
            if verify_password(str_or_empty(&u.password_digest), password) {
                let value = i32_to_string(u.id);
                Some(jar_add(jar, "user_id", value.as_str(), true))
            } else {
                None
            }
        },
        None => None,
    }
}

/// After a sign-in, the jar reads back the id of the user who signed in.
pub proof fn lemma_sign_in_then_user_id(values: Map<Seq<char>, Seq<char>>, id: i32)
    ensures
        spec_user_id(values.insert("user_id"@, spec_i32_decimal(id))) == Some(id),
{
    lemma_parse_decimal_roundtrip(id);
}

/// A user whose stored digest was made from a password (as registration
/// makes it) signs in with that password, and the jar then reads back the
/// user's id.
pub proof fn lemma_registered_user_signs_in(
    u: User,
    password: Seq<char>,
    values: Map<Seq<char>, Seq<char>>,
)
    requires
        u.password_digest matches Some(d) && spec_bcrypt_verify(password, d@) == Some(true),
    ensures
        password_accepted(u, password),
        spec_user_id(values.insert("user_id"@, spec_i32_decimal(u.id))) == Some(u.id),
{
    lemma_sign_in_then_user_id(values, u.id);
}

/// After signing out, the jar has no signed-in user.
pub proof fn lemma_sign_out_clears_user_id(values: Map<Seq<char>, Seq<char>>)
    ensures
        spec_user_id(values.remove("user_id"@)) is None,
{
}

/// Signing in leaves every other cookie as it was.
pub proof fn lemma_sign_in_keeps_other_cookies(
    values: Map<Seq<char>, Seq<char>>,
    id: i32,
    name: Seq<char>,
)
    requires
        name != "user_id"@,
    ensures
        values.insert("user_id"@, spec_i32_decimal(id)).contains_key(name) == values.contains_key(
            name,
        ),
        values.contains_key(name) ==> values.insert("user_id"@, spec_i32_decimal(id))[name]
            == values[name],
{
}

} // verus!
