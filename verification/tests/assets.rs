use saas_starter::assets::{
    choose_stylesheet, css_hash, resolve_assets, HashFile, StylesheetChoice,
};
use saas_starter::Environment;

#[test]
fn css_hash_is_read_from_the_hash_file() {
    let contents = "js: 1a2b3c\nwasm: 4d5e6f\ncss: 7a8b9c\n";
    assert_eq!(css_hash(contents), Some("7a8b9c"));
}

#[test]
fn css_hash_is_none_without_a_css_line() {
    assert_eq!(css_hash("js: 1a2b3c\nwasm: 4d5e6f\n"), None);
    assert_eq!(css_hash(""), None);
}

#[test]
fn css_hash_trims_keys_values_and_carriage_returns() {
    assert_eq!(css_hash("js: 1\r\n  css :  abc  \r\n"), Some("abc"));
    assert_eq!(css_hash("css:last"), Some("last"));
    assert_eq!(css_hash("css: first\ncss: second\n"), Some("first"));
}

#[test]
fn css_hash_ignores_lines_without_a_colon_and_other_keys() {
    assert_eq!(css_hash("css\ncsss: x\nxcss: y\n"), None);
    assert_eq!(css_hash("css\ncss: z"), Some("z"));
    assert_eq!(css_hash("css: a:b"), Some("a:b"));
}

#[test]
fn hash_file_gives_the_hashed_name() {
    let file = HashFile::Contents("js: 1\ncss: 7a8b9c\n".to_string());
    let choice = choose_stylesheet("app", &file, "/srv/hash.txt").expect("hashed");
    assert_eq!(choice.file, "app.7a8b9c.css");
    assert!(choice.hashed);
}

#[test]
fn no_hash_file_gives_the_plain_name() {
    let choice = choose_stylesheet("app", &HashFile::Missing, "/srv/hash.txt").expect("plain");
    assert_eq!(choice.file, "app.css");
    assert!(!choice.hashed);
}

#[test]
fn hash_file_without_css_line_is_an_error() {
    let file = HashFile::Contents("js: 1\n".to_string());
    let err = choose_stylesheet("app", &file, "/srv/hash.txt").expect_err("no css line");
    assert_eq!(err, "/srv/hash.txt: no `css:` line");
}

#[test]
fn unreadable_hash_file_is_an_error() {
    let file = HashFile::Unreadable("permission denied".to_string());
    let err = choose_stylesheet("app", &file, "/srv/hash.txt").expect_err("unreadable");
    assert_eq!(err, "reading /srv/hash.txt: permission denied");
}

fn hashed() -> StylesheetChoice {
    StylesheetChoice { file: "app.7a8b9c.css".to_string(), hashed: true }
}

fn plain() -> StylesheetChoice {
    StylesheetChoice { file: "app.css".to_string(), hashed: false }
}

#[test]
fn stylesheet_path_is_under_the_pkg_folder() {
    let assets = resolve_assets(
        "pkg",
        &hashed(),
        &Environment::Production,
        true,
        true,
        "/srv/hash.txt",
        "/srv/site/pkg",
    )
    .expect("file exists");
    assert_eq!(assets.stylesheet, "/pkg/app.7a8b9c.css");
}

#[test]
fn stale_hash_file_refuses_the_boot() {
    let err = resolve_assets(
        "pkg",
        &hashed(),
        &Environment::Production,
        true,
        false,
        "/srv/hash.txt",
        "/srv/site/pkg",
    )
    .expect_err("stale");
    assert!(err.contains("the hash file is stale"), "{err}");
    assert!(err.starts_with("/srv/hash.txt names app.7a8b9c.css but /srv/site/pkg"), "{err}");
}

#[test]
fn hashed_site_without_hash_file_refuses_the_boot() {
    let err = resolve_assets(
        "pkg",
        &plain(),
        &Environment::Any("staging".to_string()),
        true,
        false,
        "/srv/hash.txt",
        "/srv/site/pkg",
    )
    .expect_err("missing hash file");
    assert!(err.contains("must be deployed together with its hash file"), "{err}");
}

#[test]
fn missing_site_folder_is_not_an_error() {
    let assets = resolve_assets(
        "pkg",
        &plain(),
        &Environment::Development,
        false,
        false,
        "/srv/hash.txt",
        "target/site/pkg",
    )
    .expect("no site folder");
    assert_eq!(assets.stylesheet, "/pkg/app.css");
}

#[test]
fn test_environment_skips_the_disk_checks() {
    let assets = resolve_assets(
        "pkg",
        &hashed(),
        &Environment::Test,
        true,
        false,
        "/srv/hash.txt",
        "target/site/pkg",
    )
    .expect("test skips the disk");
    assert_eq!(assets.stylesheet, "/pkg/app.7a8b9c.css");
}
