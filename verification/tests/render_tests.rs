use std::sync::Arc;

use live_bet::handlers::{render, rendered_page, Rendered};
use tera::Tera;

#[test]
fn test_render_success() {
    let mut tera = Tera::default();
    tera.add_raw_template("test.html", "Hello {{ name }}!").unwrap();
    let tera = Arc::new(tera);
    let mut ctx = tera::Context::new();
    ctx.insert("name", "World");

    let resp = render(&tera, "test.html", ctx);
    assert_eq!(resp.status(), 200);
    assert_eq!(resp.body(), "Hello World!");
}

#[test]
fn test_render_missing_template() {
    let tera = Arc::new(Tera::default());
    let ctx = tera::Context::new();

    let resp = render(&tera, "nonexistent.html", ctx);
    assert_eq!(resp.status(), 500);
    assert!(resp.body().starts_with("Template error in nonexistent.html: "));
}

#[test]
fn rendered_page_message() {
    let p = rendered_page("a.html", Err("boom".to_string()));
    assert_eq!(p.status(), 500);
    assert_eq!(p.body(), "Template error in a.html: boom");
    assert!(matches!(rendered_page("a.html", Ok("<p>".to_string())), Rendered::Html(_)));
}
