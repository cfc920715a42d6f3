//! Delivery to a host's webhook endpoints: routes, timeouts, the execute
//! retry schedule, and the transport-security startup refusals.

use vstd::prelude::*;

use crate::palette::{split_whitespace, split_words, strings_view};
use crate::text::{chars_of, concat2, concat3, push_decimal, push_str, str_eq};

verus! {

/// The full Unicode upper-case mapping of a string (`str::to_uppercase`).
pub uninterp spec fn uppercase_text(s: Seq<char>) -> Seq<char>;

/// `str::to_uppercase`: the named upper-case mapping of `s`.
#[verifier::external_body]
fn uppercase(s: &str) -> (r: String)
    ensures
        r@ == uppercase_text(s@),
{
    s.to_uppercase()
}

/// A `tchar` of RFC 9110: the characters an HTTP method token may hold.
pub open spec fn is_tchar(c: char) -> bool {
    ('0' <= c && c <= '9') || ('a' <= c && c <= 'z') || ('A' <= c && c <= 'Z') || c == '!' || c == '#'
        || c == '$' || c == '%' || c == '&' || c == '\'' || c == '*' || c == '+' || c == '-' || c == '.'
        || c == '^' || c == '_' || c == '`' || c == '|' || c == '~'
}

/// A valid HTTP method: one or more `tchar`s.
pub open spec fn method_token(s: Seq<char>) -> bool {
    s.len() > 0 && forall|i: int| 0 <= i < s.len() ==> is_tchar(#[trigger] s[i])
}

fn tchar(c: char) -> (r: bool)
    ensures
        r == is_tchar(c),
{
    ('0' <= c && c <= '9') || ('a' <= c && c <= 'z') || ('A' <= c && c <= 'Z') || c == '!' || c == '#'
        || c == '$' || c == '%' || c == '&' || c == '\'' || c == '*' || c == '+' || c == '-' || c == '.'
        || c == '^' || c == '_' || c == '`' || c == '|' || c == '~'
}

fn is_method_token(s: &str) -> (r: bool)
    ensures
        r == method_token(s@),
{
    let cs = chars_of(s);
    if cs.len() == 0 {
        return false;
    }
    let mut i: usize = 0;
    while i < cs.len()
        invariant
            i <= cs.len(),
            cs@ == s@,
            forall|j: int| 0 <= j < i ==> is_tchar(#[trigger] cs@[j]),
        decreases cs.len() - i,
    {
        if !tchar(cs[i]) {
            return false;
        }
        i = i + 1;
    }
    true
}

/// One host endpoint: `"METHOD /path"` deployment configuration.
#[derive(Debug)]
pub struct Route {
    /// The HTTP method, upper case.
    pub method: String,
    /// Path joined onto the upstream base URL.
    pub path: String,
}

/// A route string that is not `"METHOD /path"`.
#[derive(Debug)]
pub struct RouteParseError(pub String);

/// The message of a rejected route string.
pub open spec fn route_error_text(v: Seq<char>) -> Seq<char> {
    "invalid route `"@ + v + "` — expected `METHOD /path` (e.g. `POST /internal/cleverhans/execute`)"@
}

impl RouteParseError {
    /// The error's message.
    pub fn message(&self) -> (s: String)
        ensures
            s@ == route_error_text(self.0@),
    {
        concat3("invalid route `", self.0.as_str(), "` — expected `METHOD /path` (e.g. `POST /internal/cleverhans/execute`)")
    }
}

/// The route a string names: exactly two white-space separated words, the
/// first a method once upper-cased, the second a path starting with `/`.
pub open spec fn route_of(value: Seq<char>) -> Option<(Seq<char>, Seq<char>)> {
    let words = split_words(value);
    if words.len() == 2 && method_token(uppercase_text(words[0])) && words[1].len() > 0 && words[1][0] == '/' {
        Some((uppercase_text(words[0]), words[1]))
    } else {
        None
    }
}

impl Route {
    /// Parses `"METHOD /path"`.
    pub fn parse(value: &str) -> (r: Result<Route, RouteParseError>)
        ensures
            match route_of(value@) {
                Some((m, p)) => r matches Ok(route) && route.method@ == m && route.path@ == p,
                None => r matches Err(e) && e.0@ == value@,
            },
    {
        let words = split_whitespace(value);
        if words.len() != 2 {
            return Err(RouteParseError(value.to_owned()));
        }
        assert(strings_view(words@)[0] == words[0]@ && strings_view(words@)[1] == words[1]@);
        let method = uppercase(words[0].as_str());
        if !is_method_token(method.as_str()) {
            return Err(RouteParseError(value.to_owned()));
        }
        let pc = chars_of(words[1].as_str());
        if pc.len() == 0 || pc[0] != '/' {
            return Err(RouteParseError(value.to_owned()));
        }
        Ok(Route { method, path: words[1].clone() })
    }

    /// A copy of this route.
    pub fn copy(&self) -> (r: Route)
        ensures
            r.method@ == self.method@,
            r.path@ == self.path@,
    {
        Route { method: self.method.clone(), path: self.path.clone() }
    }
}

/// Per-endpoint delivery timeouts, in milliseconds.
#[derive(Debug)]
pub struct Timeouts {
    pub verify_session_ms: u64,
    pub authorize_ms: u64,
    pub dry_run_ms: u64,
    pub execute_ms: u64,
}

impl Default for Timeouts {
    /// 5 s for `verify_session` and `authorize`, 10 s for `dry_run`, 30 s
    /// for `execute`.
    fn default() -> (t: Timeouts)
        ensures
            t.verify_session_ms == 5000,
            t.authorize_ms == 5000,
            t.dry_run_ms == 10000,
            t.execute_ms == 30000,
    {
        Timeouts { verify_session_ms: 5000, authorize_ms: 5000, dry_run_ms: 10000, execute_ms: 30000 }
    }
}

/// Execute retry policy: total attempts including the first, and the base
/// backoff, doubled after each retry.
#[derive(Debug)]
pub struct RetryPolicy {
    pub execute_attempts: u32,
    pub backoff_ms: u64,
}

impl Default for RetryPolicy {
    /// Three attempts, 200 ms base backoff.
    fn default() -> (p: RetryPolicy)
        ensures
            p.execute_attempts == 3,
            p.backoff_ms == 200,
    {
        RetryPolicy { execute_attempts: 3, backoff_ms: 200 }
    }
}

/// Deployment configuration of a host client.
#[derive(Debug)]
pub struct HostClientConfig {
    /// Upstream origin, e.g. `http://127.0.0.1:3000`.
    pub base_url: String,
    /// Service-to-service bearer secret.
    pub secret: Option<String>,
    /// HMAC signing key for the signature header.
    pub signing_key: Option<String>,
    /// Per-endpoint timeouts.
    pub timeouts: Timeouts,
    /// Execute retry policy.
    pub retry: RetryPolicy,
    /// Permit a plaintext non-loopback upstream.
    pub danger_allow_remote_http: bool,
    /// Permit running without a service secret.
    pub danger_allow_missing_secret: bool,
}

/// Startup-time configuration refusals.
#[derive(Debug)]
pub enum ClientConfigError {
    /// The base URL failed to parse.
    InvalidBaseUrl(String),
    /// Plaintext HTTP to a non-loopback host.
    RemotePlaintext(String),
    /// No service secret configured.
    MissingSecret,
    /// The underlying HTTP client failed to build.
    Http(String),
}

pub open spec fn client_config_error_text(e: ClientConfigError) -> Seq<char> {
    match e {
        ClientConfigError::InvalidBaseUrl(u) => "invalid upstream base_url `"@ + u@ + "`"@,
        ClientConfigError::RemotePlaintext(u) => "refusing plaintext http to non-loopback upstream `"@ + u@
            + "` — use https, a loopback address, or set danger_allow_remote_http"@,
        ClientConfigError::MissingSecret => "refusing to run without a service secret — webhook endpoints are execution surface (spec §12.11); configure one or set danger_allow_missing_secret"@,
        ClientConfigError::Http(m) => "http client: "@ + m@,
    }
}

impl ClientConfigError {
    /// The error's message.
    pub fn message(&self) -> (s: String)
        ensures
            s@ == client_config_error_text(*self),
    {
        match self {
            ClientConfigError::InvalidBaseUrl(u) => concat3("invalid upstream base_url `", u.as_str(), "`"),
            ClientConfigError::RemotePlaintext(u) => concat3(
                "refusing plaintext http to non-loopback upstream `",
                u.as_str(),
                "` — use https, a loopback address, or set danger_allow_remote_http",
            ),
            ClientConfigError::MissingSecret => "refusing to run without a service secret — webhook endpoints are execution surface (spec §12.11); configure one or set danger_allow_missing_secret".to_owned(),
            ClientConfigError::Http(m) => concat2("http client: ", m.as_str()),
        }
    }
}

/// What `url::Url::parse` makes of a string: its scheme and host, or
/// `None` when it does not parse.
pub uninterp spec fn url_parts(s: Seq<char>) -> Option<(Seq<char>, Option<Seq<char>>)>;

/// `url::Url::parse`, then `scheme` and `host_str` of the parsed URL.
#[verifier::external_body]
fn parse_url(s: &str) -> (r: Option<(String, Option<String>)>)
    ensures
        match url_parts(s@) {
            None => r is None,
            Some((scheme, host)) => r matches Some(p) && p.0@ == scheme
                && crate::envelope::opt_str_view(p.1) == host,
        },
{
    match url::Url::parse(s) {
        Ok(u) => Some((u.scheme().to_owned(), u.host_str().map(|h| h.to_owned()))),
        Err(_) => None,
    }
}

/// The host of an upstream base URL, when it parses and has one.
pub fn upstream_host(base_url: &str) -> (r: Option<String>)
    ensures
        match url_parts(base_url@) {
            Some((_, Some(h))) => r matches Some(x) && x@ == h,
            _ => r is None,
        },
{
    match parse_url(base_url) {
        Some((_, host)) => host,
        None => None,
    }
}

/// Why a client configuration is refused at startup.
pub enum StartupRefusal {
    InvalidBaseUrl,
    RemotePlaintext,
    MissingSecret,
}

/// The transport-security verdict on a client configuration, given whether
/// the upstream host is a loopback IP literal: an unparsable URL, plaintext
/// HTTP to a non-loopback host (`localhost` counts as loopback), or a
/// missing secret is refused unless the matching override is set.
pub open spec fn startup_refusal(
    base_url: Seq<char>,
    secret_present: bool,
    allow_remote_http: bool,
    allow_missing_secret: bool,
    host_ip_loopback: bool,
) -> Option<StartupRefusal> {
    match url_parts(base_url) {
        None => Some(StartupRefusal::InvalidBaseUrl),
        Some((scheme, host)) => {
            let loopback = match host {
                Some(h) => h == "localhost"@ || host_ip_loopback,
                None => false,
            };
            if scheme == "http"@ && !loopback && !allow_remote_http {
                Some(StartupRefusal::RemotePlaintext)
            } else if !secret_present && !allow_missing_secret {
                Some(StartupRefusal::MissingSecret)
            } else {
                None
            }
        },
    }
}

/// `base` without trailing `/` characters.
pub open spec fn trim_trailing_slashes(base: Seq<char>) -> Seq<char>
    decreases base.len(),
{
    if base.len() > 0 && base.last() == '/' {
        trim_trailing_slashes(base.drop_last())
    } else {
        base
    }
}

pub(crate) fn trim_slashes(base: &str) -> (r: String)
    ensures
        r@ == trim_trailing_slashes(base@),
{
    let cs = chars_of(base);
    let mut b: usize = cs.len();
    assert(cs@.take(b as int) =~= cs@);
    while b > 0 && cs[b - 1] == '/'
        invariant
            b <= cs.len(),
            cs@ == base@,
            trim_trailing_slashes(base@) == trim_trailing_slashes(cs@.take(b as int)),
        decreases b,
    {
        assert(cs@.take(b as int).drop_last() =~= cs@.take(b - 1));
        b = b - 1;
    }
    crate::text::substring(&cs, 0, b)
}

/// Applies the startup refusals; on success, the base URL without trailing
/// slashes, to which routes are joined. `host_ip_loopback` tells whether
/// [`upstream_host`] is a loopback IP literal.
pub fn check_client_config(config: &HostClientConfig, host_ip_loopback: bool) -> (r: Result<String, ClientConfigError>)
    ensures
        match startup_refusal(
            config.base_url@,
            config.secret is Some,
            config.danger_allow_remote_http,
            config.danger_allow_missing_secret,
            host_ip_loopback,
        ) {
            None => r matches Ok(b) && b@ == trim_trailing_slashes(config.base_url@),
            Some(StartupRefusal::InvalidBaseUrl) => r matches Err(ClientConfigError::InvalidBaseUrl(u))
                && u@ == config.base_url@,
            Some(StartupRefusal::RemotePlaintext) => r matches Err(ClientConfigError::RemotePlaintext(u))
                && u@ == config.base_url@,
            Some(StartupRefusal::MissingSecret) => r matches Err(ClientConfigError::MissingSecret),
        },
{
    let (scheme, host) = match parse_url(config.base_url.as_str()) {
        Some(p) => p,
        None => return Err(ClientConfigError::InvalidBaseUrl(config.base_url.clone())),
    };
    let loopback = match &host {
        Some(h) => str_eq(h.as_str(), "localhost") || host_ip_loopback,
        None => false,
    };
    if str_eq(scheme.as_str(), "http") && !loopback && !config.danger_allow_remote_http {
        return Err(ClientConfigError::RemotePlaintext(config.base_url.clone()));
    }
    if config.secret.is_none() && !config.danger_allow_missing_secret {
        return Err(ClientConfigError::MissingSecret);
    }
    Ok(trim_slashes(config.base_url.as_str()))
}

/// The `Display` text of an HTTP status: its code and canonical reason.
pub uninterp spec fn status_display(code: u16) -> Seq<char>;

/// `http::StatusCode::from_u16`, then its `Display` text.
#[verifier::external_body]
fn status_line(code: u16) -> (s: String)
    requires
        100 <= code <= 999,
    ensures
        s@ == status_display(code),
{
    match http::StatusCode::from_u16(code) {
        Ok(status) => status.to_string(),
        Err(_) => String::new(),
    }
}

/// Why a delivery produced no usable 2xx body.
#[derive(Debug)]
pub enum DeliveryError {
    /// The endpoint answered with a non-2xx status (100 to 999).
    Status { status: u16, body: String },
    /// The delivery timed out or never connected: the outcome is unknown.
    Unreachable(String),
    /// A 2xx answer whose body did not match the contract.
    MalformedBody(String),
}

pub open spec fn delivery_error_text(e: DeliveryError) -> Seq<char> {
    match e {
        DeliveryError::Status { status, .. } => "host answered "@ + status_display(status),
        DeliveryError::Unreachable(m) => "delivery failed: "@ + m@,
        DeliveryError::MalformedBody(m) => "malformed host response: "@ + m@,
    }
}

impl DeliveryError {
    /// Whether the host received and answered this delivery (an answered
    /// call is never retried; only unknown outcomes are).
    pub fn is_answered(&self) -> (r: bool)
        ensures
            r == !(*self is Unreachable),
    {
        match self {
            DeliveryError::Status { .. } | DeliveryError::MalformedBody(_) => true,
            DeliveryError::Unreachable(_) => false,
        }
    }

    /// The error's message.
    pub fn message(&self) -> (s: String)
        requires
            self matches DeliveryError::Status { status, .. } ==> 100 <= *status <= 999,
        ensures
            s@ == delivery_error_text(*self),
    {
        match self {
            DeliveryError::Status { status, .. } => concat2("host answered ", status_line(*status).as_str()),
            DeliveryError::Unreachable(m) => concat2("delivery failed: ", m.as_str()),
            DeliveryError::MalformedBody(m) => concat2("malformed host response: ", m.as_str()),
        }
    }
}

} // verus!
