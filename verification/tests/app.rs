use saas_starter::layout::{footer_text, APP_NAME};
use saas_starter::mail::{magic_link_token, origin};
use saas_starter::App;

#[test]
fn version_names_the_build() {
    assert_eq!(App::app_version("0.1.0", Some("abc"), Some("def")), "0.1.0 (abc)");
    assert_eq!(App::app_version("0.1.0", None, Some("def")), "0.1.0 (def)");
    assert_eq!(App::app_version("0.1.0", None, None), "0.1.0 (dev)");
}

#[test]
fn mail_origin_drops_trailing_slashes() {
    assert_eq!(origin("https://example.com/"), "https://example.com");
    assert_eq!(origin("https://example.com//"), "https://example.com");
    assert_eq!(origin("http://localhost:5150"), "http://localhost:5150");
    assert_eq!(origin("/"), "");
}

#[test]
fn magic_link_needs_a_token() {
    assert_eq!(magic_link_token(Some("t0k")), Ok("t0k".to_string()));
    assert_eq!(
        magic_link_token(None),
        Err("the user model not contains magic link token".to_string())
    );
}

#[test]
fn footer_names_the_year_and_the_app() {
    assert_eq!(footer_text(2026), format!("© 2026 {APP_NAME}"));
    assert_eq!(footer_text(-44), "© -44 SaaS Starter");
}
