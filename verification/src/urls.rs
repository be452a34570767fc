//! The endpoint resolver: one base platform URL becomes the five
//! service-specific base URLs, each the base's origin with a fixed path
//! suffix joined onto it.

use vstd::prelude::*;
use crate::error::ClientError;
use crate::text::{dec_str, u64_to_string, push_char, s_append};
use vstd::string::StringExecFns;

verus! {

/// The scheme, host and port that `url::Url::parse` extracts from a string,
/// or `None` where the string does not parse as an absolute URL with a
/// host. Parsing is a function of the input string alone.
pub uninterp spec fn url_parts(s: Seq<char>) -> Option<(Seq<char>, Seq<char>, Option<u16>)>;

/// The scheme, host and optional port of a parsed URL, as plain strings.
pub struct UrlParts {
    pub scheme: String,
    pub host: String,
    pub port: Option<u16>,
}

/// Relies on `url::Url::parse` and its accessors `scheme`, `host_str` and
/// `port`: parses an absolute URL and hands back its lower-cased scheme,
/// its host, and its explicit port (`None` where the port is the scheme's
/// default). Returns `None` where parsing fails or the URL has no host.
#[verifier::external_body]
fn parse_url_parts(s: &str) -> (r: Option<UrlParts>)
    ensures
        r is Some <==> url_parts(s@) is Some,
        r is Some ==> {
            let p = url_parts(s@)->Some_0;
            r->Some_0.scheme@ == p.0 && r->Some_0.host@ == p.1 && r->Some_0.port == p.2
        },
{
    match url::Url::parse(s) {
        Ok(u) => match u.host_str() {
            Some(h) => Some(UrlParts {
                scheme: u.scheme().to_string(),
                host: h.to_string(),
                port: u.port(),
            }),
            None => None,
        },
        Err(_) => None,
    }
}

/// A base URL this library accepts: it parses, has a host, and its scheme
/// is `http` or `https`.
pub open spec fn url_ok(s: Seq<char>) -> bool {
    match url_parts(s) {
        Some(p) => p.0 == "http"@ || p.0 == "https"@,
        None => false,
    }
}

/// The origin of a valid base URL: scheme, `://`, host, and `:port` where
/// an explicit non-default port was given.
pub open spec fn origin_of(s: Seq<char>) -> Seq<char>
    recommends
        url_ok(s),
{
    let p = url_parts(s)->Some_0;
    p.0 + "://"@ + p.1 + (match p.2 {
        Some(port) => seq![':'] + dec_str(port as nat),
        None => Seq::<char>::empty(),
    })
}

/// The URL of one service: the base's origin with the service's fixed
/// path suffix joined onto it.
pub open spec fn service_url(base: Seq<char>, suffix: Seq<char>) -> Seq<char>
    recommends
        url_ok(base),
{
    origin_of(base) + suffix
}

/// The five service base URLs derived from one platform base URL.
/// All five share the base's origin.
#[derive(Debug)]
pub struct ServiceUrls {
    pub rest: String,
    pub auth: String,
    pub realtime: String,
    pub storage: String,
    pub functions: String,
}

impl ServiceUrls {
    /// All five URLs are the given base's origin with the fixed suffixes.
    pub open spec fn derived_from(self, base: Seq<char>) -> bool {
        &&& self.rest@ == service_url(base, "/rest/v1"@)
        &&& self.auth@ == service_url(base, "/auth/v1"@)
        &&& self.realtime@ == service_url(base, "/realtime/v1"@)
        &&& self.storage@ == service_url(base, "/storage/v1"@)
        &&& self.functions@ == service_url(base, "/functions/v1"@)
    }
}

/// All five service URLs of a resolved set share the base's origin: each
/// one starts with it, followed by its own fixed suffix.
pub proof fn lemma_services_share_origin(s: ServiceUrls, base: Seq<char>)
    requires
        s.derived_from(base),
    ensures
        s.rest@.take(origin_of(base).len() as int) == origin_of(base),
        s.auth@.take(origin_of(base).len() as int) == origin_of(base),
        s.realtime@.take(origin_of(base).len() as int) == origin_of(base),
        s.storage@.take(origin_of(base).len() as int) == origin_of(base),
        s.functions@.take(origin_of(base).len() as int) == origin_of(base),
{
    let o = origin_of(base);
    assert(s.rest@.take(o.len() as int) =~= o);
    assert(s.auth@.take(o.len() as int) =~= o);
    assert(s.realtime@.take(o.len() as int) =~= o);
    assert(s.storage@.take(o.len() as int) =~= o);
    assert(s.functions@.take(o.len() as int) =~= o);
}

fn origin_string(p: &UrlParts) -> (r: String)
    ensures
        r@ == p.scheme@ + "://"@ + p.host@ + (match p.port {
            Some(port) => seq![':'] + dec_str(port as nat),
            None => Seq::<char>::empty(),
        }),
{
    let mut r = String::new();
    s_append(&mut r, &p.scheme);
    r.append("://");
    s_append(&mut r, &p.host);
    match p.port {
        Some(port) => {
            push_char(&mut r, ':');
            let digits = u64_to_string(port as u64);
            s_append(&mut r, &digits);
            proof {
                assert(r@ =~= p.scheme@ + "://"@ + p.host@ + (seq![':'] + dec_str(
                    port as nat,
                )));
            }
        },
        None => {
            proof {
                assert(r@ =~= p.scheme@ + "://"@ + p.host@ + Seq::<char>::empty());
            }
        },
    }
    r
}

fn joined(origin: &String, suffix: &str) -> (r: String)
    ensures
        r@ == origin@ + suffix@,
{
    let mut r = String::new();
    s_append(&mut r, origin);
    r.append(suffix);
    proof {
        assert(r@ =~= origin@ + suffix@);
    }
    r
}

/// Resolves a base platform URL into the five service URLs.
///
/// Succeeds exactly on strings that parse as absolute http/https URLs with
/// a host; every other input is rejected with `InvalidUrl`. Each service
/// URL is the base's origin with that service's fixed suffix.
pub fn resolve(base_url: &str) -> (r: Result<ServiceUrls, ClientError>)
    ensures
        r is Ok <==> url_ok(base_url@),
        r is Ok ==> r->Ok_0.derived_from(base_url@),
        r is Err ==> r->Err_0 is InvalidUrl,
{
    let parts = match parse_url_parts(base_url) {
        Some(p) => p,
        None => {
            return Err(ClientError::InvalidUrl);
        },
    };
    let http_s = "http".to_owned();
    let https_s = "https".to_owned();
    if !(parts.scheme == http_s || parts.scheme == https_s) {
        return Err(ClientError::InvalidUrl);
    }
    let origin = origin_string(&parts);
    proof {
        assert(origin@ == origin_of(base_url@));
    }
    Ok(ServiceUrls {
        rest: joined(&origin, "/rest/v1"),
        auth: joined(&origin, "/auth/v1"),
        realtime: joined(&origin, "/realtime/v1"),
        storage: joined(&origin, "/storage/v1"),
        functions: joined(&origin, "/functions/v1"),
    })
}

} // verus!
