//! The harness web-app URL and the routing rule that keeps the webview on the
//! client's own surface.

use vstd::prelude::*;
use crate::text::{all_whitespace, non_blank, non_blank_spec, opt_view};

verus! {

/// Whether `url::Url::parse` accepts `input` as an absolute URL.
pub uninterp spec fn url_accepts(input: Seq<char>) -> bool;

/// `Url::scheme` of the URL that `url::Url::parse` makes of `input`.
pub uninterp spec fn url_scheme(input: Seq<char>) -> Seq<char>;

/// `Url::host_str` of the URL that `url::Url::parse` makes of `input`.
pub uninterp spec fn url_host(input: Seq<char>) -> Option<Seq<char>>;

/// `Url::port_or_known_default` of the URL that `url::Url::parse` makes of `input`.
pub uninterp spec fn url_known_port(input: Seq<char>) -> Option<u16>;

/// `Url::as_str` (the serialization) of the URL that `url::Url::parse` makes of `input`.
pub uninterp spec fn url_serialization(input: Seq<char>) -> Seq<char>;

/// A parsed absolute URL, reduced to the parts this library reads: its
/// scheme, its host, its port (explicit or the scheme's known default) and
/// its serialization.
pub struct WebUrl {
    scheme: String,
    host: Option<String>,
    known_port: Option<u16>,
    text: String,
}

/// The mathematical model of a [`WebUrl`].
pub struct WebUrlView {
    pub scheme: Seq<char>,
    pub host: Option<Seq<char>>,
    pub known_port: Option<u16>,
    pub text: Seq<char>,
}

impl View for WebUrl {
    type V = WebUrlView;

    closed spec fn view(&self) -> WebUrlView {
        WebUrlView {
            scheme: self.scheme@,
            host: opt_view(self.host),
            known_port: self.known_port,
            text: self.text@,
        }
    }
}

/// What `url::Url::parse` makes of `input`, reduced to the parts of a [`WebUrl`].
pub open spec fn parsed_url(input: Seq<char>) -> Option<WebUrlView> {
    if url_accepts(input) {
        Some(
            WebUrlView {
                scheme: url_scheme(input),
                host: url_host(input),
                known_port: url_known_port(input),
                text: url_serialization(input),
            },
        )
    } else {
        None
    }
}

/// The view of an optional [`WebUrl`].
pub open spec fn opt_url_view(u: Option<WebUrl>) -> Option<WebUrlView> {
    match u {
        Some(w) => Some(w@),
        None => None,
    }
}

/// Calls `url::Url::parse` on `input` and, on success, reads the parsed URL's
/// `scheme`, `host_str`, `port_or_known_default` and `as_str`. Claimed: the
/// result is present exactly when the parser accepts `input`, and each part is
/// what the corresponding accessor returns; what the parser does to the text
/// (normalisation, percent-encoding, IDNA) is left to the named results.
#[verifier::external_body]
fn parse_with_url_crate(input: &str) -> (r: Option<WebUrl>)
    ensures
        r is Some <==> url_accepts(input@),
        r matches Some(u) ==> {
            &&& u@.scheme == url_scheme(input@)
            &&& u@.host == url_host(input@)
            &&& u@.known_port == url_known_port(input@)
            &&& u@.text == url_serialization(input@)
        },
{
    match url::Url::parse(input) {
        Ok(u) => Some(
            WebUrl {
                scheme: u.scheme().to_string(),
                host: u.host_str().map(|h| h.to_string()),
                known_port: u.port_or_known_default(),
                text: u.as_str().to_string(),
            },
        ),
        Err(_) => None,
    }
}

/// The default harness web app address.
pub open spec fn default_address() -> Seq<char> {
    "http://127.0.0.1:3080"@
}

/// What the URL parser makes of `http://127.0.0.1:3080`, written out; used
/// only should the parser ever reject [`default_address`].
pub open spec fn default_web_url() -> WebUrlView {
    WebUrlView {
        scheme: "http"@,
        host: Some("127.0.0.1"@),
        known_port: Some(3080u16),
        text: "http://127.0.0.1:3080/"@,
    }
}

impl WebUrl {
    /// Parses an absolute URL; `None` when the URL parser rejects it.
    pub fn parse(input: &str) -> (r: Option<WebUrl>)
        ensures
            opt_url_view(r) == parsed_url(input@),
    {
        parse_with_url_crate(input)
    }

    /// The serialization of the URL.
    pub fn as_str(&self) -> (s: &str)
        ensures
            s@ == self@.text,
    {
        self.text.as_str()
    }

    /// The URL's scheme.
    pub fn scheme(&self) -> (s: &str)
        ensures
            s@ == self@.scheme,
    {
        self.scheme.as_str()
    }

    /// The URL's host, if it has one.
    pub fn host_str(&self) -> (h: Option<&str>)
        ensures
            match h {
                Some(s) => self@.host == Some(s@),
                None => self@.host is None,
            },
    {
        match &self.host {
            Some(h) => Some(h.as_str()),
            None => None,
        }
    }

    /// The URL's port, or the known default port of its scheme.
    pub fn port_or_known_default(&self) -> (p: Option<u16>)
        ensures
            p == self@.known_port,
    {
        self.known_port
    }

    /// The default harness web app address: the parse of
    /// [`default_address`], or its written-out parts should the parser ever
    /// reject it.
    pub fn default_harness() -> (u: WebUrl)
        ensures
            u@ == default_url_spec(),
    {
        match WebUrl::parse("http://127.0.0.1:3080") {
            Some(u) => u,
            None => WebUrl::written_default(),
        }
    }

    fn written_default() -> (u: WebUrl)
        ensures
            u@ == default_web_url(),
    {
        WebUrl {
            scheme: String::from_str("http"),
            host: Some(String::from_str("127.0.0.1")),
            known_port: Some(3080),
            text: String::from_str("http://127.0.0.1:3080/"),
        }
    }
}

/// The default harness web app URL: [`default_address`] as parsed.
pub open spec fn default_url_spec() -> WebUrlView {
    match parsed_url(default_address()) {
        Some(u) => u,
        None => default_web_url(),
    }
}

/// The harness web app URL: the configured value when it is set, not blank
/// and parses, the default `http://127.0.0.1:3080` otherwise.
pub open spec fn web_url_spec(configured: Option<Seq<char>>) -> WebUrlView {
    match non_blank_spec(configured) {
        Some(v) => match parsed_url(v) {
            Some(u) => u,
            None => default_url_spec(),
        },
        None => default_url_spec(),
    }
}

/// The harness web app URL, from the configured value (`DSH_WEB_URL`) or the
/// well-known default.
pub fn web_url(configured: Option<String>) -> (u: WebUrl)
    ensures
        u@ == web_url_spec(opt_view(configured)),
        configured matches Some(c) ==> (!all_whitespace(c@) ==> (parsed_url(c@) matches Some(p)
            ==> u@ == p)),
        (match configured {
            Some(c) => all_whitespace(c@) || parsed_url(c@) is None,
            None => true,
        }) ==> u@ == default_url_spec(),
{
    proof {
        law_configured_url_is_used(opt_view(configured));
    }
    match non_blank(configured) {
        Some(v) => match WebUrl::parse(v.as_str()) {
            Some(u) => u,
            None => WebUrl::default_harness(),
        },
        None => WebUrl::default_harness(),
    }
}

/// A configured URL that is not blank and that the URL parser accepts is
/// the harness web app URL exactly as parsed, whatever its scheme, host or
/// port; the default address is used only when nothing usable is configured.
pub proof fn law_configured_url_is_used(configured: Option<Seq<char>>)
    ensures
        configured matches Some(c) ==> (!all_whitespace(c) ==> (parsed_url(c) matches Some(p)
            ==> web_url_spec(configured) == p)),
        (match configured {
            Some(c) => all_whitespace(c) || parsed_url(c) is None,
            None => true,
        }) ==> web_url_spec(configured) == default_url_spec(),
{
}

/// Whether `url` belongs to the client's own surface: the bundled loading page
/// (scheme `tauri`, or host `tauri.localhost` on Windows and Android), the
/// development server on `localhost` in a development build, or the origin
/// (scheme, host and port or known default port) of the harness web app.
pub open spec fn client_url(url: WebUrlView, app: WebUrlView, dev_build: bool) -> bool {
    ||| url.scheme == "tauri"@
    ||| url.host == Some("tauri.localhost"@)
    ||| (dev_build && url.host == Some("localhost"@))
    ||| same_origin(url, app)
}

/// Whether two URLs share scheme, host and (known) port.
pub open spec fn same_origin(url: WebUrlView, app: WebUrlView) -> bool {
    &&& url.scheme == app.scheme
    &&& url.host == app.host
    &&& url.known_port == app.known_port
}

fn host_is(host: &Option<String>, name: &str) -> (b: bool)
    ensures
        b == (opt_view(*host) == Some(name@)),
{
    match host {
        Some(h) => {
            let n = String::from_str(name);
            *h == n
        },
        None => false,
    }
}

fn same_host(a: &Option<String>, b: &Option<String>) -> (r: bool)
    ensures
        r == (opt_view(*a) == opt_view(*b)),
{
    match (a, b) {
        (Some(x), Some(y)) => *x == *y,
        (None, None) => true,
        _ => false,
    }
}

/// Whether `url` is on the client's own surface, for a build that is a
/// development build exactly when `dev_build` holds. Every other URL is
/// external and is handed to the system browser.
pub fn is_client_url_in(url: &WebUrl, app: &WebUrl, dev_build: bool) -> (b: bool)
    ensures
        b == client_url(url@, app@, dev_build),
{
    let tauri = String::from_str("tauri");
    url.scheme == tauri || host_is(&url.host, "tauri.localhost") || (dev_build && host_is(
        &url.host,
        "localhost",
    )) || (url.scheme == app.scheme && same_host(&url.host, &app.host) && url.known_port
        == app.known_port)
}

/// Whether `url` is on the client's own surface in a release build.
pub fn is_client_url(url: &WebUrl, app: &WebUrl) -> (b: bool)
    ensures
        b == client_url(url@, app@, false),
{
    is_client_url_in(url, app, false)
}

/// The host and port the reachability probe connects to: the URL's host with
/// its port or known default port, port 80 when neither is known; `None`
/// when the URL has no host.
pub open spec fn probe_target_spec(url: WebUrlView) -> Option<(Seq<char>, u16)> {
    match url.host {
        Some(h) => Some(
            (
                h,
                match url.known_port {
                    Some(p) => p,
                    None => 80u16,
                },
            ),
        ),
        None => None,
    }
}

/// Where the reachability probe of `url` connects.
pub fn probe_target(url: &WebUrl) -> (t: Option<(String, u16)>)
    ensures
        match t {
            Some((h, p)) => probe_target_spec(url@) == Some((h@, p)),
            None => probe_target_spec(url@) is None,
        },
{
    match &url.host {
        Some(h) => {
            let port = match url.known_port {
                Some(p) => p,
                None => 80,
            };
            Some((h.clone(), port))
        },
        None => None,
    }
}

/// The port the harness server is told to listen on: the URL's port or
/// known default port, 80 when neither is known.
pub open spec fn listen_port(url: WebUrlView) -> u16 {
    match url.known_port {
        Some(p) => p,
        None => 80u16,
    }
}

/// Every page of the harness web app origin, whatever its path or query, is
/// on the client's surface, in every build.
pub proof fn law_app_origin_is_internal(url: WebUrlView, app: WebUrlView, dev_build: bool)
    requires
        same_origin(url, app),
    ensures
        client_url(url, app, dev_build),
{
}

/// The harness web app address itself is always on the client's surface.
pub proof fn law_app_is_internal(app: WebUrlView, dev_build: bool)
    ensures
        client_url(app, app, dev_build),
{
}

/// The bundled loading page, under the `tauri` scheme or the
/// `tauri.localhost` host, is on the client's surface whatever the app URL.
pub proof fn law_loading_page_is_internal(url: WebUrlView, app: WebUrlView, dev_build: bool)
    requires
        url.scheme == "tauri"@ || url.host == Some("tauri.localhost"@),
    ensures
        client_url(url, app, dev_build),
{
}

/// A release build treats as internal exactly what a development build does,
/// except the development server on `localhost`.
pub proof fn law_release_build_is_stricter(url: WebUrlView, app: WebUrlView)
    ensures
        client_url(url, app, false) ==> client_url(url, app, true),
        client_url(url, app, true) && url.host != Some("localhost"@) ==> client_url(
            url,
            app,
            false,
        ),
{
}

} // verus!
