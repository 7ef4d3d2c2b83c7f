use axum_extra::extract::cookie::{Cookie, Key, SignedCookieJar};
use live_bet::handlers::get_user_id;
use live_bet::handlers::search::{search, SearchQuery, SEARCH_LIMIT};
use live_bet::handlers::sessions::{create_or_delete, sign_in, SessionForm, SessionRequest};
use live_bet::models::user::User;

fn jar() -> SignedCookieJar {
    SignedCookieJar::new(Key::from(&[3u8; 64]))
}

fn user(id: i32, password: &str) -> User {
    User {
        id,
        first_name: None,
        last_name: None,
        email: Some("a@b.c".into()),
        password_digest: Some(bcrypt::hash(password, 4).unwrap()),
    }
}

#[test]
fn sign_in_then_read_user_id() {
    let j = sign_in(jar(), Some(user(42, "pw")), "pw").unwrap();
    assert_eq!(get_user_id(&j), Some(42));
    assert_eq!(j.get("user_id").unwrap().http_only(), Some(true));
    let j = sign_in(jar(), Some(user(-7, "pw")), "pw").unwrap();
    assert_eq!(get_user_id(&j), Some(-7));
}

#[test]
fn sign_in_refused() {
    assert!(sign_in(jar(), Some(user(1, "pw")), "nope").is_none());
    assert!(sign_in(jar(), None, "pw").is_none());
    let no_digest = User { id: 1, first_name: None, last_name: None, email: None, password_digest: None };
    assert!(sign_in(jar(), Some(no_digest), "").is_none());
}

#[test]
fn sign_out_clears_user_id() {
    let j = sign_in(jar(), Some(user(42, "pw")), "pw").unwrap();
    let form = SessionForm { email: None, password: None, _method: Some("delete".into()) };
    match create_or_delete(j, &form) {
        SessionRequest::SignedOut(j) => assert_eq!(get_user_id(&j), None),
        _ => panic!("expected sign-out"),
    }
}

#[test]
fn session_form_asks_to_sign_in() {
    let form = SessionForm { email: Some("a@b.c".into()), password: None, _method: None };
    match create_or_delete(jar(), &form) {
        SessionRequest::SignIn { email, password, .. } => {
            assert_eq!(email, "a@b.c");
            assert_eq!(password, "");
        }
        _ => panic!("expected sign-in"),
    }
}

#[test]
fn unsigned_or_non_numeric_cookie_gives_no_user() {
    assert_eq!(get_user_id(&jar()), None);
    let j = jar().add(Cookie::new("user_id", "abc"));
    assert_eq!(get_user_id(&j), None);
}

#[test]
fn search_query_decisions() {
    assert!(search(&SearchQuery { q: None }).is_none());
    assert!(search(&SearchQuery { q: Some("  \t ".into()) }).is_none());
    let r = search(&SearchQuery { q: Some(" beach house ".into()) }).unwrap();
    assert_eq!(r.query, " beach house ");
    assert_eq!(r.limit, SEARCH_LIMIT);
    assert_eq!(SEARCH_LIMIT, 20);
}
