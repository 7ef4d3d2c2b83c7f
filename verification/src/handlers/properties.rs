use vstd::prelude::*;

use axum_extra::extract::cookie::SignedCookieJar;

use super::sessions::{asks_delete, is_delete};
use super::{get_user_id, signed_jar_values, spec_user_id};
use crate::models::property::{str_or_empty, text_or_empty};
use crate::models::user::User;
use crate::text::{parse_i32, spec_parse_i32};

verus! {

/// The form that creates, updates or (with `_method` = `delete`) deletes a
/// listing.
pub struct PropertyForm {
    pub name: Option<String>,
    pub image_url: Option<String>,
    pub region: Option<String>,
    pub bedroom_no: Option<String>,
    pub price: Option<String>,
    pub _method: Option<String>,
}

/// The fields of a listing as a form gives them.
pub struct PropertyFields {
    pub name: String,
    pub image_url: String,
    pub region: String,
    pub bedroom_no: i32,
    pub price: i32,
}

/// The number a form field gives: its value when it parses as an `i32`,
/// zero when it is absent or does not parse.
pub open spec fn number_field(o: Option<String>) -> i32 {
    match o {
        Some(s) => match spec_parse_i32(s@) {
            Some(v) => v,
            None => 0,
        },
        None => 0,
    }
}

/// The listing fields that a form stands for: absent texts are empty and
/// numbers that are absent or do not parse are zero.
pub open spec fn fields_of(form: PropertyForm, f: PropertyFields) -> bool {
    &&& f.name@ == text_or_empty(form.name)
    &&& f.image_url@ == text_or_empty(form.image_url)
    &&& f.region@ == text_or_empty(form.region)
    &&& f.bedroom_no == number_field(form.bedroom_no)
    &&& f.price == number_field(form.price)
}

/// The listing fields of a form are its texts as given and the numbers its
/// number fields parse to: where the price or bedroom field parses as the
/// `i32` `v`, that field is exactly `v`; where it is absent or does not
/// parse, it is zero; an absent text is empty.
pub proof fn lemma_form_fields_as_given(form: PropertyForm, f: PropertyFields)
    requires
        fields_of(form, f),
    ensures
        match form.price {
            Some(s) => match spec_parse_i32(s@) {
                Some(v) => f.price == v,
                None => f.price == 0,
            },
            None => f.price == 0,
        },
        match form.bedroom_no {
            Some(s) => match spec_parse_i32(s@) {
                Some(v) => f.bedroom_no == v,
                None => f.bedroom_no == 0,
            },
            None => f.bedroom_no == 0,
        },
        form.name matches Some(s) ==> f.name@ == s@,
        form.name is None ==> f.name@.len() == 0,
        form.region matches Some(s) ==> f.region@ == s@,
        form.region is None ==> f.region@.len() == 0,
        form.image_url matches Some(s) ==> f.image_url@ == s@,
        form.image_url is None ==> f.image_url@.len() == 0,
{
}

fn parse_number_field(o: &Option<String>) -> (v: i32)
    ensures
        v == number_field(*o),
{
    match o {
        Some(s) => match parse_i32(s.as_str()) {
            Some(v) => v,
            None => 0,
        },
        None => 0,
    }
}

impl PropertyForm {
    /// The listing fields of the form.
    pub fn fields(&self) -> (f: PropertyFields)
        ensures
            fields_of(*self, f),
    {
        PropertyFields {
            name: str_or_empty(&self.name).to_owned(),
            image_url: str_or_empty(&self.image_url).to_owned(),
            region: str_or_empty(&self.region).to_owned(),
            bedroom_no: parse_number_field(&self.bedroom_no),
            price: parse_number_field(&self.price),
        }
    }
}

/// Who is looking at a page, as its header shows.
pub enum Viewer {
    /// Nobody is signed in.
    Anonymous,
    /// This user is signed in.
    SignedIn(User),
}

/// The visitor of a page, once the user whose id the session cookie holds
/// has been looked up: signed in when there is an id and a user was found
/// for it, anonymous otherwise.
pub fn base_ctx(user_id: Option<i32>, found: Option<User>) -> (v: Viewer)
    ensures
        user_id is None ==> v is Anonymous,
        user_id is Some ==> match found {
            Some(u) => v == Viewer::SignedIn(u),
            None => v is Anonymous,
        },
{
    if user_id.is_none() {
        return Viewer::Anonymous;
    }
    match found {
        Some(u) => Viewer::SignedIn(u),
        None => Viewer::Anonymous,
    }
}

/// Whether the listing forms may be shown: only to a signed-in user; anyone
/// else is redirected home.
pub fn may_edit_listings(jar: &SignedCookieJar) -> (r: bool)
    ensures
        r <==> spec_user_id(signed_jar_values(*jar)) is Some,
{
    get_user_id(jar).is_some()
}

/// Handles a posted new listing: a signed-in user gets the listing created
/// from the form's fields; anyone else is only redirected.
pub fn create(jar: &SignedCookieJar, form: &PropertyForm) -> (r: Option<PropertyFields>)
    ensures
        r is Some <==> spec_user_id(signed_jar_values(*jar)) is Some,
        r matches Some(f) ==> fields_of(*form, f),
{
    if get_user_id(jar).is_none() {
        return None;
    }
    Some(form.fields())
}

/// What a posted edit form does to a listing.
pub enum PropertyChange {
    /// Nobody is signed in: nothing changes, redirect home.
    Unauthorized,
    /// Delete the listing.
    Delete,
    /// Update the listing with these fields.
    Update(PropertyFields),
}

/// Handles a posted edit form: without a signed-in user nothing changes;
/// with `_method` = `delete` the listing is deleted; otherwise it is updated
/// with the form's fields.
pub fn update_or_delete(jar: &SignedCookieJar, form: &PropertyForm) -> (r: PropertyChange)
    ensures
        spec_user_id(signed_jar_values(*jar)) is None ==> r is Unauthorized,
        spec_user_id(signed_jar_values(*jar)) is Some && asks_delete(form._method) ==> r is Delete,
        spec_user_id(signed_jar_values(*jar)) is Some && !asks_delete(form._method) ==> (r matches PropertyChange::Update(f) && fields_of(*form, f)),
{
    if get_user_id(jar).is_none() {
        return PropertyChange::Unauthorized;
    }
    if is_delete(&form._method) {
        PropertyChange::Delete
    } else {
        PropertyChange::Update(form.fields())
    }
}

} // verus!
