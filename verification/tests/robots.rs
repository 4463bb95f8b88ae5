use saas_starter::robots::body_for;
use saas_starter::Environment;

#[test]
fn production_is_open() {
    assert_eq!(body_for(&Environment::Production), "User-agent: *\nAllow: /\n");
}

#[test]
fn everything_else_is_closed() {
    for env in [
        Environment::Development,
        Environment::Test,
        Environment::Any("staging".into()),
    ] {
        assert_eq!(body_for(&env), "User-agent: *\nDisallow: /\n", "{env:?}");
    }
}
