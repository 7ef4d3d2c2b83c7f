use axum_extra::extract::cookie::{Key, SignedCookieJar};
use live_bet::handlers::get_user_id;
use live_bet::handlers::properties::PropertyForm;
use live_bet::handlers::sessions::sign_in;
use live_bet::models::user::User;

fn bedrooms(text: &str) -> i32 {
    PropertyForm {
        name: None,
        image_url: None,
        region: None,
        bedroom_no: Some(text.to_string()),
        price: None,
        _method: None,
    }
    .fields()
    .bedroom_no
}

#[test]
fn number_fields_accept_signed_decimals() {
    assert_eq!(bedrooms("42"), 42);
    assert_eq!(bedrooms("+42"), 42);
    assert_eq!(bedrooms("-42"), -42);
    assert_eq!(bedrooms("007"), 7);
    assert_eq!(bedrooms("2147483647"), i32::MAX);
    assert_eq!(bedrooms("-2147483648"), i32::MIN);
}

#[test]
fn number_fields_default_to_zero() {
    assert_eq!(bedrooms(""), 0);
    assert_eq!(bedrooms("+"), 0);
    assert_eq!(bedrooms("-"), 0);
    assert_eq!(bedrooms(" 1"), 0);
    assert_eq!(bedrooms("1_000"), 0);
    assert_eq!(bedrooms("2147483648"), 0);
    assert_eq!(bedrooms("-2147483649"), 0);
    assert_eq!(bedrooms("--1"), 0);
    assert_eq!(bedrooms("３"), 0);
}

#[test]
fn user_id_cookie_roundtrip() {
    let digest = bcrypt::hash("pw", 4).unwrap();
    for id in [0, 7, -7, 10, 1234567, i32::MAX, i32::MIN] {
        let u = User {
            id,
            first_name: None,
            last_name: None,
            email: None,
            password_digest: Some(digest.clone()),
        };
        let jar = sign_in(SignedCookieJar::new(Key::from(&[9u8; 64])), Some(u), "pw").unwrap();
        assert_eq!(get_user_id(&jar), Some(id));
        assert_eq!(jar.get("user_id").unwrap().value(), id.to_string());
        assert!(jar.get("user_id").unwrap().http_only().unwrap_or(false));
    }
}
