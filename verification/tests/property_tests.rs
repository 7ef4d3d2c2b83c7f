use axum_extra::extract::cookie::{Cookie, Key, SignedCookieJar};
use live_bet::handlers::{signing_key, signing_key_bytes};
use live_bet::handlers::properties::{
    base_ctx, create, may_edit_listings, update_or_delete, PropertyChange, PropertyForm, Viewer,
};
use live_bet::models::property::{
    backfill_embeddings, one_bedroom, three_bedroom, two_bedroom, Property,
};
use live_bet::models::search::property_embedding;

fn signed_in_jar() -> SignedCookieJar {
    let key = Key::from(&[7u8; 64]);
    SignedCookieJar::new(key).add(Cookie::new("user_id", "5"))
}

fn anonymous_jar() -> SignedCookieJar {
    SignedCookieJar::new(Key::from(&[7u8; 64]))
}

fn form(method: Option<&str>) -> PropertyForm {
    PropertyForm {
        name: Some("Beach Villa".to_string()),
        image_url: None,
        region: Some("Sydney".to_string()),
        bedroom_no: Some("3".to_string()),
        price: Some("lots".to_string()),
        _method: method.map(|m| m.to_string()),
    }
}

#[test]
fn test_property_clone() {
    let p = Property {
        id: 1,
        name: Some("Clone Test".into()),
        image_url: None,
        region: None,
        bedroom_no: None,
        price: None,
    };
    let p2 = p.clone();
    assert_eq!(p.id, p2.id);
    assert_eq!(p.name, p2.name);
}

#[test]
fn form_fields_use_defaults() {
    let f = form(None).fields();
    assert_eq!(f.name, "Beach Villa");
    assert_eq!(f.image_url, "");
    assert_eq!(f.region, "Sydney");
    assert_eq!(f.bedroom_no, 3);
    assert_eq!(f.price, 0);
}

#[test]
fn listing_forms_need_a_signed_in_user() {
    assert!(!may_edit_listings(&anonymous_jar()));
    assert!(may_edit_listings(&signed_in_jar()));
}

#[test]
fn create_needs_a_signed_in_user() {
    assert!(create(&anonymous_jar(), &form(None)).is_none());
    let f = create(&signed_in_jar(), &form(None)).unwrap();
    assert_eq!(f.bedroom_no, 3);
}

#[test]
fn update_or_delete_decides() {
    assert!(matches!(update_or_delete(&anonymous_jar(), &form(Some("delete"))), PropertyChange::Unauthorized));
    assert!(matches!(update_or_delete(&signed_in_jar(), &form(Some("delete"))), PropertyChange::Delete));
    match update_or_delete(&signed_in_jar(), &form(Some("put"))) {
        PropertyChange::Update(f) => assert_eq!(f.region, "Sydney"),
        _ => panic!("expected an update"),
    }
    assert!(matches!(update_or_delete(&signed_in_jar(), &form(Some("DELETE"))), PropertyChange::Update(_)));
    assert!(matches!(update_or_delete(&signed_in_jar(), &form(None)), PropertyChange::Update(_)));
}

#[test]
fn backfill_uses_defaults_for_missing_fields() {
    let rows = vec![
        Property {
            id: 3,
            name: Some("Opera house".into()),
            image_url: None,
            region: Some("Sydney".into()),
            bedroom_no: Some(2),
            price: Some(900_000),
        },
        Property { id: 9, name: None, image_url: None, region: None, bedroom_no: None, price: None },
    ];
    let updates = backfill_embeddings(&rows);
    assert_eq!(updates.len(), 2);
    assert_eq!(updates[0].id, 3);
    assert_eq!(
        updates[0].embedding.to_vec(),
        property_embedding("Opera house", "Sydney", 2, 900_000).to_vec()
    );
    assert_eq!(updates[1].id, 9);
    assert_eq!(updates[1].embedding.to_vec(), property_embedding("", "", 0, 0).to_vec());
}

#[test]
fn signing_key_material() {
    assert_eq!(signing_key_bytes(None), vec![b'0'; 64]);
    let mut short = b"abc".to_vec();
    short.extend(std::iter::repeat(0u8).take(61));
    assert_eq!(signing_key_bytes(Some("abc")), short);
    let long = "k".repeat(80);
    assert_eq!(signing_key_bytes(Some(&long)), long.as_bytes().to_vec());
    assert_eq!(signing_key(Some("abc")).master(), &short[..]);
    assert_eq!(signing_key(Some(&long)).master(), &long.as_bytes()[..64]);
    assert_eq!(signing_key(None).master(), &[b'0'; 64][..]);
}

fn listing(id: i32, bedroom_no: Option<i32>) -> Property {
    Property { id, name: None, image_url: None, region: None, bedroom_no, price: None }
}

fn ids(rows: Vec<Property>) -> Vec<i32> {
    rows.into_iter().map(|p| p.id).collect()
}

#[test]
fn bedroom_pages_filter_in_order() {
    let rows = || {
        vec![
            listing(1, Some(3)),
            listing(2, Some(1)),
            listing(3, None),
            listing(4, Some(2)),
            listing(5, Some(10)),
            listing(6, Some(1)),
            listing(7, Some(0)),
            listing(8, Some(-1)),
        ]
    };
    assert_eq!(ids(one_bedroom(rows())), vec![2, 6]);
    assert_eq!(ids(two_bedroom(rows())), vec![4]);
    assert_eq!(ids(three_bedroom(rows())), vec![1, 5]);
    assert!(one_bedroom(Vec::new()).is_empty());
}

#[test]
fn viewer_of_a_page() {
    let u = live_bet::models::user::User {
        id: 5,
        first_name: Some("Harry".into()),
        last_name: None,
        email: None,
        password_digest: None,
    };
    assert!(matches!(base_ctx(None, None), Viewer::Anonymous));
    assert!(matches!(base_ctx(Some(5), None), Viewer::Anonymous));
    match base_ctx(Some(5), Some(u)) {
        Viewer::SignedIn(v) => assert_eq!(v.id, 5),
        Viewer::Anonymous => panic!("expected a signed-in viewer"),
    }
}
