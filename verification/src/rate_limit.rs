//! The rate limiter's decisions: where the visitor key comes from, which
//! key a request falls into, the 429 page and the headers it carries, and
//! whether the limiter layer is on.

use vstd::prelude::*;

use crate::environment::{spec_is_local, Environment};
use crate::header::{ascii_bytes, ascii_bytes_of, values_of, Headers};
use crate::settings::RateLimitSettings;
use crate::text::{
    agrees, decimal, decimal_string, digit_char, is_digit, lemma_decimal_digits, lemma_replace_absent,
    lemma_replace_at_start, lemma_replace_prefix_untouched, occurs_at, push_str, replace,
    replace_all,
};


verus! {

broadcast use vstd::string::group_string_axioms;

/// The 429 page. `{wait}` is replaced by the number of seconds to wait.
pub const PAGE: &'static str = "<!doctype html>\n<html lang=\"en\">\n<head>\n<meta charset=\"utf-8\">\n<meta name=\"viewport\" content=\"width=device-width, initial-scale=1\">\n<title>Too many requests</title>\n</head>\n<body class=\"min-h-dvh text-ink\">\n<main class=\"mx-auto max-w-3xl px-6 py-16\">\n<h1 class=\"text-4xl font-bold tracking-tight\">Too many requests</h1>\n<p class=\"mt-4 text-lg text-ink-muted\">You have sent more requests than this site allows in a short time. Please try again in {wait} seconds.</p>\n</main>\n</body>\n</html>\n";

/// The placeholder in [`PAGE`].
pub const WAIT_PLACEHOLDER: &'static str = "{wait}";

/// The wait the page shows: the limiter's whole seconds, at least 1.
pub open spec fn shown_wait(wait_secs: u64) -> nat {
    if wait_secs == 0 { 1 } else { wait_secs as nat }
}

/// The 429 page for a wait of `wait_secs`.
pub open spec fn page_text(wait_secs: u64) -> Seq<char> {
    replace_all(PAGE@, WAIT_PLACEHOLDER@, decimal(shown_wait(wait_secs)))
}

/// The 429 page with the wait filled in. `wait_secs` is whole seconds and
/// can be 0 right before a token replenishes; the page says at least 1.
pub fn render_page(wait_secs: u64) -> (page: String)
    ensures
        page@ == page_text(wait_secs),
{
    proof {
        reveal_strlit("{wait}");
    }
    let shown: u64 = if wait_secs == 0 { 1 } else { wait_secs };
    let wait = decimal_string(shown);
    replace(PAGE, WAIT_PLACEHOLDER, wait.as_str())
}

/// The page names the wait, "in N seconds" with N at least 1, and no
/// placeholder is left in it.
pub proof fn lemma_page_fills_in_the_wait(wait_secs: u64)
    ensures
        forall|i: int| !occurs_at(page_text(wait_secs), WAIT_PLACEHOLDER@, i),
        shown_wait(wait_secs) >= 1,
        wait_secs >= 1 ==> shown_wait(wait_secs) == wait_secs,
        exists|i: int|
            occurs_at(
                page_text(wait_secs),
                "in "@ + decimal(shown_wait(wait_secs)) + " seconds"@,
                i,
            ),
{
    reveal_strlit("<!doctype html>\n<html lang=\"en\">\n<head>\n<meta charset=\"utf-8\">\n<meta name=\"viewport\" content=\"width=device-width, initial-scale=1\">\n<title>Too many requests</title>\n</head>\n<body class=\"min-h-dvh text-ink\">\n<main class=\"mx-auto max-w-3xl px-6 py-16\">\n<h1 class=\"text-4xl font-bold tracking-tight\">Too many requests</h1>\n<p class=\"mt-4 text-lg text-ink-muted\">You have sent more requests than this site allows in a short time. Please try again in {wait} seconds.</p>\n</main>\n</body>\n</html>\n");
    reveal_strlit("{wait}");
    reveal_strlit("in ");
    reveal_strlit(" seconds");
    let page = PAGE@;
    let p = WAIT_PLACEHOLDER@;
    let d = decimal(shown_wait(wait_secs));
    let at: int = 446;
    let head = page.take(at);
    let tail = page.skip(at + 6);
    assert(page =~= head + (p + tail));
    assert forall|i: int| 0 <= i < head.len() implies head[i] != p[0] by {}
    assert forall|i: int| 0 <= i < tail.len() implies tail[i] != p[0] by {}
    lemma_replace_prefix_untouched(head, p + tail, p, d);
    lemma_replace_at_start(tail, p, d);
    lemma_replace_absent(tail, p, d);
    let text = head + d + tail;
    assert(page_text(wait_secs) =~= text);
    lemma_decimal_digits(shown_wait(wait_secs));
    assert forall|i: int| !occurs_at(text, p, i) by {
        if occurs_at(text, p, i) {
            assert(text.subrange(i, i + p.len())[0] == p[0]);
            assert(text[i] == '{');
            if i < head.len() {
            } else if i < head.len() + d.len() {
                assert(is_digit(d[i - head.len()]));
            } else {
                assert(text[i] == tail[i - head.len() - d.len()]);
            }
        }
    }
    let needle = "in "@ + d + " seconds"@;
    assert(text.subrange(at - 3, at - 3 + needle.len()) =~= needle);
    assert(occurs_at(page_text(wait_secs), needle, at - 3));
}


/// Where the framework's `remote_ip` middleware reads the client address.
/// `Other` carries the name of a source the limiter does not support.
#[derive(Clone, Debug)]
pub enum RemoteIpSource {
    CfConnectingIp,
    ConnectInfo,
    Other(String),
}

/// The `remote_ip` middleware's configuration.
#[derive(Clone, Debug)]
pub struct RemoteIp {
    pub enable: bool,
    pub source: RemoteIpSource,
}

/// Where the visitor address is read from. Derived from `remote_ip`.
#[derive(PartialEq, Eq, Structural, Clone, Copy, Debug)]
pub enum KeySource {
    /// The TCP peer: development and tests.
    Peer,
    /// `CF-Connecting-IP`, with the peer as fallback: behind Cloudflare.
    CfConnectingIp,
}

pub open spec fn unsupported_source_text(name: Seq<char>) -> Seq<char> {
    "rate_limit: remote_ip.source "@ + name
        + " is not supported; use CfConnectingIp (behind Cloudflare) or ConnectInfo (no proxy)"@
}

pub open spec fn shared_bucket_text() -> Seq<char> {
    "rate_limit: outside development/test the peer address is the reverse proxy, so every visitor would share one bucket; enable remote_ip with source CfConnectingIp"@
}

/// The key source that `remote_ip` implies, before the environment is
/// considered: an enabled middleware decides, a missing or disabled one
/// means the peer.
pub open spec fn configured_source(remote_ip: Option<&RemoteIp>) -> Result<KeySource, Seq<char>> {
    match remote_ip {
        Some(m) => if m.enable {
            match m.source {
                RemoteIpSource::CfConnectingIp => Ok(KeySource::CfConnectingIp),
                RemoteIpSource::ConnectInfo => Ok(KeySource::Peer),
                RemoteIpSource::Other(name) => Err(unsupported_source_text(name@)),
            }
        } else {
            Ok(KeySource::Peer)
        },
        None => Ok(KeySource::Peer),
    }
}

/// The key source for `remote_ip` in `env`: the configured one, refused
/// when it would be the peer outside development and test.
pub open spec fn spec_key_source(remote_ip: Option<&RemoteIp>, env: &Environment) -> Result<
    KeySource,
    Seq<char>,
> {
    match configured_source(remote_ip) {
        Ok(source) => if !spec_is_local(*env) && source == KeySource::Peer {
            Err(shared_bucket_text())
        } else {
            Ok(source)
        },
        Err(e) => Err(e),
    }
}

/// Maps the `remote_ip` config to a key source, refusing combinations that
/// would silently put every visitor into one bucket.
///
/// # Errors
/// The `remote_ip` source is one this limiter does not support, or the
/// environment is a deployed one (anything but development/test) while the
/// key would be the peer address, which behind a reverse proxy is always the
/// proxy itself.
pub fn key_source(remote_ip: Option<&RemoteIp>, env: &Environment) -> (r: Result<
    KeySource,
    String,
>)
    ensures
        agrees(r, spec_key_source(remote_ip, env)),
        !spec_is_local(*env) ==> (r matches Ok(k) ==> k == KeySource::CfConnectingIp),
{
    let source = match remote_ip {
        Some(m) => if m.enable {
            match &m.source {
                RemoteIpSource::CfConnectingIp => KeySource::CfConnectingIp,
                RemoteIpSource::ConnectInfo => KeySource::Peer,
                RemoteIpSource::Other(name) => {
                    let mut message = String::from_str("rate_limit: remote_ip.source ");
                    push_str(&mut message, name.as_str());
                    push_str(
                        &mut message,
                        " is not supported; use CfConnectingIp (behind Cloudflare) or ConnectInfo (no proxy)",
                    );
                    proof {
                        reveal_strlit("rate_limit: remote_ip.source ");
                        reveal_strlit(
                            " is not supported; use CfConnectingIp (behind Cloudflare) or ConnectInfo (no proxy)",
                        );
                    }
                    return Err(message);
                },
            }
        } else {
            KeySource::Peer
        },
        None => KeySource::Peer,
    };
    let local = match env {
        Environment::Development | Environment::Test => true,
        _ => false,
    };
    if !local && source == KeySource::Peer {
        proof {
            reveal_strlit(
                "rate_limit: outside development/test the peer address is the reverse proxy, so every visitor would share one bucket; enable remote_ip with source CfConnectingIp",
            );
        }
        return Err(
            String::from_str(
                "rate_limit: outside development/test the peer address is the reverse proxy, so every visitor would share one bucket; enable remote_ip with source CfConnectingIp",
            ),
        );
    }
    Ok(source)
}

/// Outside development and test the limiter is never keyed on the peer
/// address: such a configuration is refused, not accepted.
pub proof fn lemma_deployed_never_shares_one_bucket(remote_ip: Option<&RemoteIp>, env: &Environment)
    requires
        !spec_is_local(*env),
    ensures
        spec_key_source(remote_ip, env) != Ok::<KeySource, Seq<char>>(KeySource::Peer),
{
}

/// What each `remote_ip` configuration gives: an enabled Cloudflare source
/// is accepted everywhere; keying on the peer (no middleware, a disabled
/// one, or `ConnectInfo`) is accepted in development and test and refused
/// everywhere else; any other source is refused everywhere.
pub proof fn lemma_key_source_decisions(remote_ip: Option<&RemoteIp>, env: &Environment)
    ensures
        remote_ip matches Some(m) ==> (m.enable && m.source is CfConnectingIp ==> spec_key_source(
            remote_ip,
            env,
        ) == Ok::<KeySource, Seq<char>>(KeySource::CfConnectingIp)),
        remote_ip matches Some(m) ==> (m.enable && m.source is Other ==> spec_key_source(
            remote_ip,
            env,
        ) is Err),
        remote_ip is None ==> ((*env is Development || *env is Test) ==> spec_key_source(
            remote_ip,
            env,
        ) == Ok::<KeySource, Seq<char>>(KeySource::Peer)),
        remote_ip is None ==> (!(*env is Development) && !(*env is Test) ==> spec_key_source(
            remote_ip,
            env,
        ) is Err),
        remote_ip matches Some(m) ==> ((!m.enable || m.source is ConnectInfo) ==> ((*env is Development
            || *env is Test) ==> spec_key_source(remote_ip, env) == Ok::<KeySource, Seq<char>>(
            KeySource::Peer,
        ))),
        remote_ip matches Some(m) ==> ((!m.enable || m.source is ConnectInfo) ==> (!(*env is Development)
            && !(*env is Test) ==> spec_key_source(remote_ip, env) is Err)),
{
}

/// A visitor address, as the number of an IPv4 or IPv6 address.
#[derive(PartialEq, Eq, Structural, Clone, Copy, Debug)]
pub enum IpKey {
    V4(u32),
    V6(u128),
}

/// `0.0.0.0`: the one bucket every request without a usable address shares.
pub open spec fn unspecified() -> IpKey {
    IpKey::V4(0)
}

/// The rate limiter's key extractor: one bucket per visitor IP.
#[derive(Clone, Copy, Debug)]
pub struct VisitorIp {
    pub source: KeySource,
}

impl VisitorIp {
    /// The bucket a request falls into, given the address its
    /// `CF-Connecting-IP` header parses to (if any) and its TCP peer (if
    /// known): the header for the Cloudflare source, the peer otherwise or
    /// as fallback, and `0.0.0.0` when neither is there.
    pub open spec fn spec_key(self, from_header: Option<IpKey>, from_peer: Option<IpKey>) -> IpKey {
        if self.source == KeySource::CfConnectingIp && from_header is Some {
            from_header->0
        } else if from_peer is Some {
            from_peer->0
        } else {
            unspecified()
        }
    }

    /// Whether the `CF-Connecting-IP` header is consulted at all.
    pub fn reads_header(&self) -> (b: bool)
        ensures
            b == (self.source == KeySource::CfConnectingIp),
    {
        self.source == KeySource::CfConnectingIp
    }

    /// The bucket key of a request. Never fails: a request with no usable
    /// address shares one bucket.
    pub fn key(&self, from_header: Option<IpKey>, from_peer: Option<IpKey>) -> (k: IpKey)
        ensures
            k == self.spec_key(from_header, from_peer),
            self.source == KeySource::CfConnectingIp && from_header is Some ==> k
                == from_header->0,
            (self.source == KeySource::Peer || from_header is None) && from_peer is Some ==> k
                == from_peer->0,
            (self.source == KeySource::Peer || from_header is None) && from_peer is None ==> k
                == IpKey::V4(0),
    {
        match (self.source, from_header, from_peer) {
            (KeySource::CfConnectingIp, Some(ip), _) => ip,
            (_, _, Some(ip)) => ip,
            _ => IpKey::V4(0),
        }
    }
}

/// The bucket key is the visitor's own address whenever one is known:
/// behind Cloudflare the `CF-Connecting-IP` address of either family wins
/// over the edge's TCP address; without it, or with the peer source, the
/// TCP peer; and `0.0.0.0` only when neither is known.
pub proof fn lemma_key_is_the_visitor_address(
    source: KeySource,
    from_header: Option<IpKey>,
    from_peer: Option<IpKey>,
)
    ensures
        source == KeySource::CfConnectingIp ==> (from_header matches Some(ip) ==> (VisitorIp {
            source,
        }).spec_key(from_header, from_peer) == ip),
        (source == KeySource::Peer || from_header is None) ==> (from_peer matches Some(ip) ==> (
        VisitorIp { source }).spec_key(from_header, from_peer) == ip),
        from_header is None && from_peer is None ==> (VisitorIp { source }).spec_key(
            from_header,
            from_peer,
        ) == IpKey::V4(0),
        source == KeySource::Peer && from_peer is None ==> (VisitorIp { source }).spec_key(
            from_header,
            from_peer,
        ) == IpKey::V4(0),
{
}

/// With the peer source the header never matters, and with either source a
/// request without any address falls into the `0.0.0.0` bucket.
pub proof fn lemma_peer_source_ignores_the_header(
    visitor: VisitorIp,
    a: Option<IpKey>,
    b: Option<IpKey>,
    peer: Option<IpKey>,
)
    ensures
        visitor.source == KeySource::Peer ==> visitor.spec_key(a, peer) == visitor.spec_key(
            b,
            peer,
        ),
        visitor.spec_key(None, None) == unspecified(),
{
}

/// What the rate limiter runs with once the boot-time checks passed.
#[derive(Clone, Copy, Debug)]
pub struct Configured {
    pub settings: RateLimitSettings,
    pub key_source: KeySource,
}

pub open spec fn settings_missing_text() -> Seq<char> {
    "rate_limit: settings missing from the shared store (after_context did not run)"@
}

/// The limiter's configuration from the parsed settings (`None` when they
/// never reached the shared store) and the `remote_ip` config.
pub open spec fn spec_configure(
    settings: Option<&RateLimitSettings>,
    remote_ip: Option<&RemoteIp>,
    env: &Environment,
) -> Result<Configured, Seq<char>> {
    match settings {
        None => Err(settings_missing_text()),
        Some(s) => match spec_key_source(remote_ip, env) {
            Ok(k) => Ok(Configured { settings: *s, key_source: k }),
            Err(e) => Err(e),
        },
    }
}

/// The `rate_limit` entry of the middleware stack. Carries the outcome of
/// the boot-time validation so a bad config fails loudly when the layer is
/// applied instead of silently disabling the limiter.
#[derive(Debug)]
pub struct RateLimit {
    inner: Result<Configured, String>,
}

impl RateLimit {
    /// The validation outcome this layer carries.
    pub closed spec fn outcome(self) -> Result<Configured, String> {
        self.inner
    }

    /// Validates the limiter's configuration.
    pub fn configure(
        settings: Option<&RateLimitSettings>,
        remote_ip: Option<&RemoteIp>,
        env: &Environment,
    ) -> (r: Result<Configured, String>)
        ensures
            agrees(r, spec_configure(settings, remote_ip, env)),
            settings is None ==> r is Err,
            r matches Ok(c) ==> (settings matches Some(s) && c.settings == *s),
            r matches Ok(c) ==> spec_key_source(remote_ip, env) == Ok::<KeySource, Seq<char>>(
                c.key_source,
            ),
            settings is Some && spec_key_source(remote_ip, env) is Ok ==> r is Ok,
    {
        let settings = match settings {
            Some(s) => s,
            None => {
                proof {
                    reveal_strlit(
                        "rate_limit: settings missing from the shared store (after_context did not run)",
                    );
                }
                return Err(
                    String::from_str(
                        "rate_limit: settings missing from the shared store (after_context did not run)",
                    ),
                );
            },
        };
        let key_source = key_source(remote_ip, env)?;
        Ok(Configured { settings: *settings, key_source })
    }

    /// The layer for the given settings, `remote_ip` config and environment.
    pub fn from_context(
        settings: Option<&RateLimitSettings>,
        remote_ip: Option<&RemoteIp>,
        env: &Environment,
    ) -> (layer: RateLimit)
        ensures
            agrees(layer.outcome(), spec_configure(settings, remote_ip, env)),
    {
        RateLimit { inner: Self::configure(settings, remote_ip, env) }
    }

    /// The middleware's name.
    pub fn name(&self) -> (n: &'static str)
        ensures
            n@ == "rate_limit"@,
    {
        proof {
            reveal_strlit("rate_limit");
        }
        "rate_limit"
    }

    /// A broken config must reach the layer's application and fail the
    /// boot, so only a valid, disabled limiter is off.
    pub fn is_enabled(&self) -> (b: bool)
        ensures
            b == match self.outcome() {
                Ok(c) => c.settings.enable,
                Err(_) => true,
            },
    {
        match &self.inner {
            Ok(c) => c.settings.enable,
            Err(_) => true,
        }
    }

    /// The configuration to build the limiter from, or the boot error.
    pub fn configured(&self) -> (r: Result<Configured, String>)
        ensures
            match (r, self.outcome()) {
                (Ok(c), Ok(d)) => c == d,
                (Err(m), Err(e)) => m@ == e@,
                _ => false,
            },
    {
        match &self.inner {
            Ok(c) => Ok(*c),
            Err(e) => Err(e.clone()),
        }
    }
}

impl Clone for RateLimit {
    fn clone(&self) -> (r: Self)
        ensures
            r == *self,
    {
        match &self.inner {
            Ok(c) => RateLimit { inner: Ok(*c) },
            Err(e) => RateLimit { inner: Err(e.clone()) },
        }
    }
}


/// The values the response holds under `name` after the limiter's headers
/// were laid over the page response's own.
pub open spec fn merged_values(
    base: Seq<(Seq<char>, Seq<u8>)>,
    given: Option<Seq<(Seq<char>, Seq<u8>)>>,
    name: Seq<char>,
) -> Seq<Seq<u8>> {
    match given {
        Some(g) => if values_of(g, name).len() > 0 {
            values_of(g, name)
        } else {
            values_of(base, name)
        },
        None => values_of(base, name),
    }
}

/// A `retry-after` value as the client gets it: "0", which tells the
/// client to come straight back, is raised to "1".
pub open spec fn at_least_one_second(v: Seq<u8>) -> Seq<u8> {
    if v == seq![48u8] {
        seq![49u8]
    } else {
        v
    }
}

/// The values the 429 response holds under `name`: the limiter's headers
/// over the page's; a `retry-after` of the wait, at least one second, when
/// none came with them, and a given one of 0 raised to 1; and
/// `cache-control: no-store`.
pub open spec fn rejection_values(
    base: Seq<(Seq<char>, Seq<u8>)>,
    given: Option<Seq<(Seq<char>, Seq<u8>)>>,
    wait_secs: u64,
    name: Seq<char>,
) -> Seq<Seq<u8>> {
    let merged = merged_values(base, given, name);
    if name == "cache-control"@ {
        seq![ascii_bytes("no-store"@)]
    } else if name == "retry-after"@ {
        if merged.len() == 0 {
            seq![ascii_bytes(decimal(shown_wait(wait_secs)))]
        } else {
            merged.map_values(|v: Seq<u8>| at_least_one_second(v))
        }
    } else {
        merged
    }
}

/// Whether `v` is the single digit "0".
fn reads_zero(v: &Vec<u8>) -> (b: bool)
    ensures
        b == (v@ == seq![48u8]),
{
    if v.len() == 1 && v[0] == 48u8 {
        proof {
            assert(v@ =~= seq![48u8]);
        }
        true
    } else {
        false
    }
}

/// The values under `name` after [`raise_zero_waits`]: those under
/// `retry-after` raised to at least one second, the others unchanged.
pub open spec fn raised_values(vs: Seq<Seq<u8>>, name: Seq<char>) -> Seq<Seq<u8>> {
    if name == "retry-after"@ {
        vs.map_values(|v: Seq<u8>| at_least_one_second(v))
    } else {
        vs
    }
}

/// Rewrites every `retry-after` value "0" to "1", leaving the order of the
/// entries and every other value as it is.
fn raise_zero_waits(h: &Headers) -> (r: Headers)
    ensures
        forall|n: Seq<char>|
            #![trigger values_of(r@, n)]
            values_of(r@, n) == raised_values(values_of(h@, n), n),
{
    proof {
        reveal_strlit("retry-after");
    }
    let retry_after = String::from_str("retry-after");
    let mut r = Headers::new();
    let mut i: usize = 0;
    while i < h.entries.len()
        invariant
            0 <= i <= h.entries.len(),
            retry_after@ == "retry-after"@,
            forall|n: Seq<char>|
                #![trigger values_of(r@, n)]
                values_of(r@, n) == raised_values(values_of(h@.take(i as int), n), n),
        decreases h.entries.len() - i,
    {
        proof {
            assert(h@.take(i + 1).drop_last() =~= h@.take(i as int));
        }
        let ghost before = r@;
        let name = &h.entries[i].0;
        let value = &h.entries[i].1;
        let out: Vec<u8> = if *name == retry_after && reads_zero(value) {
            vec![49u8]
        } else {
            value.clone()
        };
        proof {
            assert(h@[i as int] == (name@, value@));
            if name@ == "retry-after"@ {
                assert(out@ == at_least_one_second(value@)) by {
                    if !(value@ == seq![48u8]) {
                    } else {
                        assert(out@ =~= seq![49u8]);
                    }
                }
            } else {
                assert(out@ == value@);
            }
        }
        r.append(name.clone(), out);
        proof {
            assert forall|n: Seq<char>|
                #![trigger values_of(r@, n)]
                values_of(r@, n) == raised_values(values_of(h@.take(i + 1), n), n) by {
                assert(r@.drop_last() =~= before);
                assert(r@.last() == (name@, out@));
                assert(h@.take(i + 1).last() == (name@, value@));
                let vs = values_of(h@.take(i as int), n);
                assert(values_of(before, n) == raised_values(vs, n));
                if n == name@ {
                    assert(values_of(h@.take(i + 1), n) == vs.push(value@));
                    assert(values_of(r@, n) == values_of(before, n).push(out@));
                    assert(raised_values(vs.push(value@), n) =~= raised_values(vs, n).push(
                        out@,
                    ));
                } else {
                    assert(values_of(h@.take(i + 1), n) == vs);
                    assert(values_of(r@, n) == values_of(before, n));
                }
            }
        }
        i += 1;
    }
    proof {
        assert(h@.take(i as int) =~= h@);
    }
    r
}

/// The headers of the 429 response: `base` are those of the HTML page
/// response, `given` those the limiter computed (`retry-after`,
/// `x-ratelimit-*`), laid over them; a `retry-after` of the wait, at least
/// one second, is added when the limiter gave none, a given wait of 0 is
/// raised to 1, and the page is never cached.
pub fn rejection_headers(base: Headers, given: Option<&Headers>, wait_secs: u64) -> (h: Headers)
    ensures
        forall|n: Seq<char>|
            #![trigger values_of(h@, n)]
            values_of(h@, n) == rejection_values(
                base@,
                match given {
                    Some(g) => Some(g@),
                    None => None,
                },
                wait_secs,
                n,
            ),
{
    let ghost given_view = match given {
        Some(g) => Some(g@),
        None => None::<Seq<(Seq<char>, Seq<u8>)>>,
    };
    let mut h = base;
    if let Some(g) = given {
        h.extend(g);
    }
    let ghost merged = h@;
    assert forall|n: Seq<char>| #[trigger] values_of(merged, n) == merged_values(base@, given_view, n) by {}
    proof {
        reveal_strlit("retry-after");
        reveal_strlit("cache-control");
        reveal_strlit("no-store");
    }
    let retry_after = String::from_str("retry-after");
    let mut h = if h.contains_key(&retry_after) {
        raise_zero_waits(&h)
    } else {
        let shown: u64 = if wait_secs == 0 { 1 } else { wait_secs };
        let wait = decimal_string(shown);
        let mut h = h;
        h.insert(retry_after, ascii_bytes_of(wait.as_str()));
        h
    };
    h.insert(String::from_str("cache-control"), ascii_bytes_of("no-store"));
    h
}

/// A 429 always tells the client when to come back, never sooner than in
/// one second, and is never cached; whatever else the limiter reported
/// reaches the client unchanged.
pub proof fn lemma_rejection_says_when_to_retry(
    base: Seq<(Seq<char>, Seq<u8>)>,
    given: Option<Seq<(Seq<char>, Seq<u8>)>>,
    wait_secs: u64,
    name: Seq<char>,
)
    ensures
        rejection_values(base, given, wait_secs, "retry-after"@).len() > 0,
        forall|i: int|
            0 <= i < rejection_values(base, given, wait_secs, "retry-after"@).len()
                ==> #[trigger] rejection_values(base, given, wait_secs, "retry-after"@)[i]
                != seq![48u8],
        merged_values(base, given, "retry-after"@).len() == 0 ==> rejection_values(
            base,
            given,
            wait_secs,
            "retry-after"@,
        ) == seq![ascii_bytes(decimal(shown_wait(wait_secs)))],
        rejection_values(base, given, wait_secs, "cache-control"@) == seq![
            ascii_bytes("no-store"@),
        ],
        name != "cache-control"@ && name != "retry-after"@ ==> (given matches Some(g) ==> (
        values_of(g, name).len() > 0 ==> rejection_values(base, given, wait_secs, name)
            == values_of(g, name))),
        name != "cache-control"@ && name != "retry-after"@ ==> (given matches Some(g) ==> (
        values_of(g, name).len() == 0 ==> rejection_values(base, given, wait_secs, name)
            == values_of(base, name))),
        name != "cache-control"@ && name != "retry-after"@ ==> (given is None
            ==> rejection_values(base, given, wait_secs, name) == values_of(base, name)),
        merged_values(base, given, "retry-after"@).len() > 0 ==> rejection_values(
            base,
            given,
            wait_secs,
            "retry-after"@,
        ).len() == merged_values(base, given, "retry-after"@).len(),
        merged_values(base, given, "retry-after"@).len() > 0 ==> forall|i: int|
            0 <= i < merged_values(base, given, "retry-after"@).len() ==> (
            #[trigger] merged_values(base, given, "retry-after"@)[i] == seq![48u8] ==> rejection_values(
                base,
                given,
                wait_secs,
                "retry-after"@,
            )[i] == seq![49u8]) && (merged_values(base, given, "retry-after"@)[i] != seq![48u8]
                ==> rejection_values(base, given, wait_secs, "retry-after"@)[i] == merged_values(
                base,
                given,
                "retry-after"@,
            )[i]),
{
    reveal_strlit("retry-after");
    reveal_strlit("cache-control");
    assert("retry-after"@ != "cache-control"@) by {
        assert("retry-after"@.len() != "cache-control"@.len());
    }
    let vs = rejection_values(base, given, wait_secs, "retry-after"@);
    assert forall|i: int| 0 <= i < vs.len() implies #[trigger] vs[i] != seq![48u8] by {
        if merged_values(base, given, "retry-after"@).len() == 0 {
            let w = shown_wait(wait_secs);
            let d = decimal(w);
            assert(vs[i] == ascii_bytes(d));
            if w >= 10 {
                lemma_decimal_digits(w / 10);
                assert(d.len() >= 2);
                assert(ascii_bytes(d).len() != seq![48u8].len());
            } else {
                assert(d =~= seq![digit_char(w)]);
                assert(ascii_bytes(d)[0] != seq![48u8][0]);
            }
        } else {
            let m = merged_values(base, given, "retry-after"@);
            assert(vs[i] == at_least_one_second(m[i]));
            if m[i] == seq![48u8] {
                assert(seq![49u8] != seq![48u8]) by {
                    assert(seq![49u8][0] != seq![48u8][0]);
                }
            }
        }
    }
}

} // verus!
