pub mod properties;
pub mod search;
pub mod sessions;
pub mod users;

use std::sync::Arc;

use vstd::prelude::*;
use vstd::string::*;
use vstd::utf8::encode_utf8;

use axum_extra::extract::cookie::{Cookie, Key, SignedCookieJar};
use tera::{Context, Tera};

use crate::text::{parse_i32, spec_parse_i32};

verus! {

/// The signing key of a cookie jar.
#[verifier::external_type_specification]
#[verifier::external_body]
pub struct ExKey(Key);

/// The bytes that the cookie signing key is made from: those of the
/// configured secret, or 64 `'0'` characters when none is configured,
/// padded with zero bytes to at least 64 bytes.
pub open spec fn key_material(secret: Option<Seq<char>>) -> Seq<u8> {
    let bytes = match secret {
        Some(s) => encode_utf8(s),
        None => Seq::new(64, |i: int| 48u8),
    };
    if bytes.len() >= 64 {
        bytes
    } else {
        bytes + Seq::new((64 - bytes.len()) as nat, |i: int| 0u8)
    }
}

/// The key material for a configured secret, if any.
pub fn signing_key_bytes(secret: Option<&str>) -> (bytes: Vec<u8>)
    ensures
        bytes@ == key_material(match secret {
            Some(s) => Some(s@),
            None => None,
        }),
        bytes@.len() >= 64,
{
    let mut bytes: Vec<u8> = Vec::new();
    match secret {
        Some(s) => {
            let src = s.as_bytes();
            let mut i: usize = 0;
            while i < src.len()
                invariant
                    i <= src@.len(),
                    bytes@ == src@.take(i as int),
                decreases src@.len() - i,
            {
                bytes.push(src[i]);
                i = i + 1;
                assert(bytes@ =~= src@.take(i as int));
            }
            assert(src@.take(i as int) =~= src@);
        },
        None => {
            while bytes.len() < 64
                invariant
                    bytes@.len() <= 64,
                    forall|j: int| 0 <= j < bytes@.len() ==> bytes@[j] == 48u8,
                decreases 64 - bytes@.len(),
            {
                bytes.push(48u8);
            }
            assert(bytes@ =~= Seq::new(64, |i: int| 48u8));
        },
    }
    let ghost base = bytes@;
    assert(base == match secret {
        Some(s) => encode_utf8(s@),
        None => Seq::new(64, |i: int| 48u8),
    });
    while bytes.len() < 64
        invariant
            bytes@.len() <= 64 ==> bytes@ =~= base + Seq::new(
                (bytes@.len() - base.len()) as nat,
                |i: int| 0u8,
            ),
            bytes@.len() >= base.len(),
            base.len() >= 64 ==> bytes@ == base,
            base.len() < 64 ==> bytes@.len() <= 64,
        decreases 64 - bytes@.len(),
    {
        bytes.push(0u8);
    }
    proof {
        if base.len() < 64 {
            assert(bytes@.len() == 64);
            assert(bytes@ =~= base + Seq::new((64 - base.len()) as nat, |i: int| 0u8));
        }
    }
    bytes
}

/// The 64 bytes that a key holds: the signing half followed by the
/// encryption half, as `Key::master` hands them out.
pub uninterp spec fn key_master_bytes(key: Key) -> Seq<u8>;

/// Calls `Key::from`, which panics on fewer than 64 bytes and otherwise, as
/// its source shows, builds the key from the first 64 bytes given.
#[verifier::external_body]
fn key_from(bytes: &[u8]) -> (key: Key)
    requires
        bytes@.len() >= 64,
    ensures
        key_master_bytes(key) == bytes@.take(64),
{
    Key::from(bytes)
}

/// The key that signs the session cookies, made from the configured secret:
/// it holds the first 64 bytes of the key material.
pub fn signing_key(secret: Option<&str>) -> (key: Key)
    ensures
        key_master_bytes(key) == key_material(match secret {
            Some(s) => Some(s@),
            None => None,
        }).take(64),
{
    let bytes = signing_key_bytes(secret);
    key_from(bytes.as_slice())
}

/// A jar of cookies whose values are signed with a key.
#[verifier::external_type_specification]
#[verifier::external_body]
#[verifier::reject_recursive_types(K)]
pub struct ExSignedCookieJar<K>(SignedCookieJar<K>);

/// The cookies of a signed jar that `SignedCookieJar::get` hands out: name
/// to plaintext value, for the cookies whose signature verifies.
pub uninterp spec fn signed_jar_values(jar: SignedCookieJar) -> Map<Seq<char>, Seq<char>>;

/// The names of the cookies that `SignedCookieJar::get` hands out marked
/// HTTP-only.
pub uninterp spec fn signed_jar_http_only(jar: SignedCookieJar) -> Set<Seq<char>>;

/// Calls `SignedCookieJar::get` and takes the value of the cookie it finds.
/// As its source shows, it finds a cookie exactly when the jar holds one by
/// that name whose signature verifies, and hands out its plaintext value.
#[verifier::external_body]
pub(crate) fn jar_get(jar: &SignedCookieJar, name: &str) -> (r: Option<String>)
    ensures
        match r {
            Some(v) => signed_jar_values(*jar).contains_key(name@) && signed_jar_values(
                *jar,
            )[name@] == v@,
            None => !signed_jar_values(*jar).contains_key(name@),
        },
{
    jar.get(name).map(|c| c.value().to_owned())
}

/// Calls `SignedCookieJar::add` with a cookie built by `Cookie::new` whose
/// HTTP-only flag is set to `http_only` by `Cookie::set_http_only`. As the
/// source shows, the jar signs the value and hands it out again under that
/// name, with that flag; the other cookies stay as they were.
#[verifier::external_body]
pub(crate) fn jar_add(jar: SignedCookieJar, name: &str, value: &str, http_only: bool) -> (r:
    SignedCookieJar)
    ensures
        signed_jar_values(r) == signed_jar_values(jar).insert(name@, value@),
        http_only ==> signed_jar_http_only(r) == signed_jar_http_only(jar).insert(name@),
        !http_only ==> signed_jar_http_only(r) == signed_jar_http_only(jar).remove(name@),
{
    let mut cookie = Cookie::new(name.to_owned(), value.to_owned());
    cookie.set_http_only(http_only);
    jar.add(cookie)
}

/// Calls `SignedCookieJar::remove` with a cookie of that name. As the source
/// shows, the jar no longer hands out a cookie by that name; the other
/// cookies stay as they were.
#[verifier::external_body]
pub(crate) fn jar_remove(jar: SignedCookieJar, name: &str) -> (r: SignedCookieJar)
    ensures
        signed_jar_values(r) == signed_jar_values(jar).remove(name@),
        signed_jar_http_only(r) == signed_jar_http_only(jar).remove(name@),
{
    jar.remove(Cookie::from(name.to_owned()))
}

/// The signed-in user of a jar of cookie values: the number that the
/// `user_id` cookie holds, if there is such a cookie and it is a number.
pub open spec fn spec_user_id(values: Map<Seq<char>, Seq<char>>) -> Option<i32> {
    if values.contains_key("user_id"@) {
        spec_parse_i32(values["user_id"@])
    } else {
        None
    }
}

/// The id of the signed-in user, read from the signed `user_id` cookie.
pub fn get_user_id(jar: &SignedCookieJar) -> (r: Option<i32>)
    ensures
        r == spec_user_id(signed_jar_values(*jar)),
{
    match jar_get(jar, "user_id") {
        Some(v) => parse_i32(v.as_str()),
        None => None,
    }
}

/// The outcome of rendering a page.
pub enum Rendered {
    /// The page was rendered: an HTML body, status 200.
    Html(String),
    /// The template failed: a plain-text message, status 500.
    TemplateError(String),
}

impl Rendered {
    /// The HTTP status of the response.
    pub fn status(&self) -> (s: u16)
        ensures
            s == match self {
                Rendered::Html(_) => 200u16,
                Rendered::TemplateError(_) => 500u16,
            },
    {
        match self {
            Rendered::Html(_) => 200,
            Rendered::TemplateError(_) => 500,
        }
    }

    /// The body of the response.
    pub fn body(&self) -> (b: &str)
        ensures
            b@ == match self {
                Rendered::Html(h) => h@,
                Rendered::TemplateError(m) => m@,
            },
    {
        match self {
            Rendered::Html(h) => h.as_str(),
            Rendered::TemplateError(m) => m.as_str(),
        }
    }
}

/// A set of templates.
#[verifier::external_type_specification]
#[verifier::external_body]
pub struct ExTera(Tera);

/// The values that a template is rendered with.
#[verifier::external_type_specification]
#[verifier::external_body]
pub struct ExContext(Context);

/// The error of a failed rendering.
#[verifier::external_type_specification]
#[verifier::external_body]
pub struct ExTeraError(tera::Error);

/// The names of the templates that a template set holds.
pub uninterp spec fn tera_template_names(tera: Tera) -> Set<Seq<char>>;

/// Calls `Tera::render`. As its source shows, it first looks the template up
/// by name and fails when the set holds none by that name, so a success
/// means the template exists. What a found
/// template renders to depends on the templates, the context and, through
/// some built-in functions, the environment and the time, so nothing more
/// is stated of it.
#[verifier::external_body]
fn tera_render(tera: &Tera, template: &str, ctx: &Context) -> (r: Result<String, tera::Error>)
    ensures
        !tera_template_names(*tera).contains(template@) ==> r is Err,
{
    tera.render(template, ctx)
}

/// Writes a template error with its `Display` implementation. Nothing is
/// stated of the text.
#[verifier::external_body]
fn tera_error_text(e: &tera::Error) -> String {
    format!("{}", e)
}

/// The message of a failed rendering.
pub open spec fn template_error_message(template: Seq<char>, detail: Seq<char>) -> Seq<char> {
    "Template error in "@ + template + ": "@ + detail
}

/// The page for a rendering outcome: the HTML when rendering succeeded, and
/// otherwise a message naming the template and the error.
pub fn rendered_page(template: &str, outcome: Result<String, String>) -> (r: Rendered)
    ensures
        match outcome {
            Ok(html) => r == Rendered::Html(html),
            Err(detail) => r matches Rendered::TemplateError(m) && m@ == template_error_message(
                template@,
                detail@,
            ),
        },
{
    match outcome {
        Ok(html) => Rendered::Html(html),
        Err(detail) => {
            let mut m = "Template error in ".to_owned();
            m.append(template);
            m.append(": ");
            m.append(detail.as_str());
            Rendered::TemplateError(m)
        },
    }
}

/// Renders `template` with `ctx`: a template that the set does not hold
/// always gives a template error.
pub fn render(tera: &Arc<Tera>, template: &str, ctx: Context) -> (r: Rendered)
    ensures
        r matches Rendered::TemplateError(m) ==> exists|detail: Seq<char>|
            m@ == template_error_message(template@, detail),
        !tera_template_names(**tera).contains(template@) ==> r is TemplateError,
{
    let outcome = match tera_render(tera, template, &ctx) {
        Ok(html) => Ok(html),
        Err(e) => Err(tera_error_text(&e)),
    };
    rendered_page(template, outcome)
}

} // verus!
