use saas_starter::header::Headers;
use saas_starter::rate_limit::{
    key_source, rejection_headers, render_page, Configured, IpKey, KeySource, RateLimit,
    RemoteIp, RemoteIpSource, VisitorIp,
};
use saas_starter::{Environment, RateLimitSettings};

const HEADER_IP: IpKey = IpKey::V4(u32::from_be_bytes([203, 0, 113, 9]));
const PEER_IP: IpKey = IpKey::V4(u32::from_be_bytes([10, 0, 0, 1]));

/// The `cf-connecting-ip` header as the application hands it to the
/// library: an IPv4 address when the text is one, else nothing.
fn header_address(text: &str) -> Option<IpKey> {
    let parts: Vec<&str> = text.trim().split('.').collect();
    if parts.len() != 4 {
        return None;
    }
    let mut octets = [0u8; 4];
    for (slot, part) in octets.iter_mut().zip(parts) {
        *slot = part.parse().ok()?;
    }
    Some(IpKey::V4(u32::from_be_bytes(octets)))
}

fn extract(source: KeySource, header: Option<&str>, peer: bool) -> IpKey {
    let visitor = VisitorIp { source };
    let from_header = if visitor.reads_header() { header.and_then(header_address) } else { None };
    visitor.key(from_header, if peer { Some(PEER_IP) } else { None })
}

#[test]
fn cloudflare_source_prefers_the_header() {
    assert_eq!(extract(KeySource::CfConnectingIp, Some("203.0.113.9"), true), HEADER_IP);
}

#[test]
fn cloudflare_source_falls_back_to_the_peer() {
    assert_eq!(extract(KeySource::CfConnectingIp, None, true), PEER_IP);
    assert_eq!(extract(KeySource::CfConnectingIp, Some("not an ip"), true), PEER_IP);
}

#[test]
fn peer_source_ignores_the_header() {
    assert_eq!(extract(KeySource::Peer, Some("203.0.113.9"), true), PEER_IP);
    assert!(!VisitorIp { source: KeySource::Peer }.reads_header());
    assert_eq!(
        VisitorIp { source: KeySource::Peer }.key(Some(HEADER_IP), Some(PEER_IP)),
        PEER_IP
    );
}

#[test]
fn no_address_at_all_shares_one_bucket() {
    assert_eq!(extract(KeySource::Peer, None, false), IpKey::V4(0));
    assert_eq!(extract(KeySource::CfConnectingIp, None, false), IpKey::V4(0));
}

#[test]
fn page_fills_in_the_wait() {
    let page = render_page(7);
    assert!(page.contains("in 7 seconds"), "{page}");
    assert!(!page.contains("{wait}"));
    assert!(render_page(0).contains("in 1 seconds"), "0 must round up to 1");
}

#[test]
fn page_is_an_html_document() {
    let page = render_page(5);
    assert!(page.starts_with("<!doctype html>"));
    assert!(page.contains("Too many requests"));
    assert!(page.contains("in 5 seconds"));
    assert!(render_page(12345).contains("in 12345 seconds"));
}

fn header(h: &Headers, name: &str) -> Vec<Vec<u8>> {
    h.entries
        .iter()
        .filter(|(n, _)| n == name)
        .map(|(_, v)| v.clone())
        .collect()
}

fn page_headers() -> Headers {
    let mut base = Headers::new();
    base.append("content-type".to_string(), b"text/html; charset=utf-8".to_vec());
    base
}

#[test]
fn rejection_is_an_html_429_with_retry_headers() {
    let mut given = Headers::new();
    given.append("x-ratelimit-limit".to_string(), b"3".to_vec());
    given.append("retry-after".to_string(), b"5".to_vec());
    let res = rejection_headers(page_headers(), Some(&given), 5);
    assert_eq!(header(&res, "retry-after"), vec![b"5".to_vec()]);
    assert_eq!(header(&res, "x-ratelimit-limit"), vec![b"3".to_vec()]);
    assert_eq!(header(&res, "cache-control"), vec![b"no-store".to_vec()]);
    assert!(header(&res, "content-type")[0].starts_with(b"text/html"));
    let body = render_page(5);
    assert!(body.contains("Too many requests"));
    assert!(body.contains("in 5 seconds"));
}

#[test]
fn retry_after_is_added_when_governor_gave_no_headers() {
    let res = rejection_headers(page_headers(), None, 2);
    assert_eq!(header(&res, "retry-after"), vec![b"2".to_vec()]);
    let res = rejection_headers(page_headers(), None, 0);
    assert_eq!(header(&res, "retry-after"), vec![b"1".to_vec()], "never 0");
}

#[test]
fn a_wait_under_a_second_is_advertised_as_one() {
    let mut given = Headers::new();
    given.append("x-ratelimit-after".to_string(), b"0".to_vec());
    given.append("retry-after".to_string(), b"0".to_vec());
    given.append("x-ratelimit-remaining".to_string(), b"0".to_vec());
    let res = rejection_headers(page_headers(), Some(&given), 0);
    assert_eq!(header(&res, "retry-after"), vec![b"1".to_vec()]);
    assert_eq!(header(&res, "x-ratelimit-after"), vec![b"0".to_vec()]);
    assert_eq!(header(&res, "x-ratelimit-remaining"), vec![b"0".to_vec()]);
    assert_eq!(header(&res, "cache-control"), vec![b"no-store".to_vec()]);
    let mut given = Headers::new();
    given.append("retry-after".to_string(), b"10".to_vec());
    let res = rejection_headers(page_headers(), Some(&given), 0);
    assert_eq!(header(&res, "retry-after"), vec![b"10".to_vec()]);
}

#[test]
fn limiter_headers_replace_the_page_headers_of_the_same_name() {
    let mut base = page_headers();
    base.append("cache-control".to_string(), b"public".to_vec());
    let mut given = Headers::new();
    given.append("content-type".to_string(), b"text/plain".to_vec());
    let res = rejection_headers(base, Some(&given), 0);
    assert_eq!(header(&res, "content-type"), vec![b"text/plain".to_vec()]);
    assert_eq!(header(&res, "cache-control"), vec![b"no-store".to_vec()]);
    assert_eq!(header(&res, "retry-after"), vec![b"1".to_vec()]);
}

fn remote_ip(enable: bool, source: RemoteIpSource) -> RemoteIp {
    RemoteIp { enable, source }
}

#[test]
fn key_source_follows_remote_ip() {
    let staging = Environment::Any("staging".into());
    assert_eq!(key_source(None, &Environment::Development), Ok(KeySource::Peer));
    assert_eq!(
        key_source(Some(&remote_ip(true, RemoteIpSource::ConnectInfo)), &Environment::Test),
        Ok(KeySource::Peer)
    );
    assert_eq!(
        key_source(Some(&remote_ip(true, RemoteIpSource::CfConnectingIp)), &staging),
        Ok(KeySource::CfConnectingIp)
    );
}

#[test]
fn key_source_refuses_a_shared_bucket_when_deployed() {
    let err = key_source(None, &Environment::Production).expect_err("must refuse");
    assert!(err.contains("reverse proxy"), "{err}");
    let err = key_source(
        Some(&remote_ip(false, RemoteIpSource::CfConnectingIp)),
        &Environment::Any("staging".into()),
    )
    .expect_err("disabled remote_ip means peer");
    assert!(err.contains("CfConnectingIp"), "{err}");
}

#[test]
fn key_source_refuses_unsupported_sources() {
    let err = key_source(
        Some(&remote_ip(true, RemoteIpSource::Other("RightmostXForwardedFor".into()))),
        &Environment::Development,
    )
    .expect_err("XFF is not supported");
    assert!(err.contains("not supported"), "{err}");
    assert!(err.contains("RightmostXForwardedFor"), "{err}");
}

fn limits(enable: bool) -> RateLimitSettings {
    RateLimitSettings { enable, per_second: 1, burst: 20 }
}

#[test]
fn broken_config_keeps_the_layer_enabled() {
    let layer = RateLimit::from_context(None, None, &Environment::Test);
    assert!(layer.is_enabled());
    let err = layer.configured().expect_err("no settings");
    assert!(err.contains("settings missing"), "{err}");
    let layer = RateLimit::from_context(Some(&limits(false)), None, &Environment::Production);
    assert!(layer.is_enabled(), "a refused key source must still fail the boot");
    assert!(layer.configured().is_err());
}

#[test]
fn valid_config_follows_the_enable_flag() {
    let on = RateLimit::from_context(Some(&limits(true)), None, &Environment::Test);
    assert!(on.is_enabled());
    let c: Configured = on.configured().expect("valid");
    assert_eq!(c.key_source, KeySource::Peer);
    assert_eq!(c.settings.burst, 20);
    let off = RateLimit::from_context(Some(&limits(false)), None, &Environment::Test);
    assert!(!off.is_enabled());
    assert_eq!(off.name(), "rate_limit");
}
