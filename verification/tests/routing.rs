use dsh_desktop::web_url::{is_client_url, is_client_url_in, probe_target, web_url, WebUrl};

fn parse(text: &str) -> WebUrl {
    WebUrl::parse(text).expect("static URL")
}

#[test]
fn client_urls_are_internal_but_external_links_are_not() {
    let app = WebUrl::parse("http://127.0.0.1:3080/").expect("static URL");
    // The bundled loading page uses the tauri:// scheme on macOS/Linux…
    assert!(is_client_url(
        &WebUrl::parse("tauri://localhost/loading.html").expect("static URL"),
        &app
    ));
    // …and the http://tauri.localhost workaround on Windows/Android.
    assert!(is_client_url(
        &WebUrl::parse("http://tauri.localhost/loading.html").expect("static URL"),
        &app
    ));
    // The harness web app origin, including deep routes.
    assert!(is_client_url(&WebUrl::parse("http://127.0.0.1:3080/").unwrap(), &app));
    assert!(is_client_url(
        &WebUrl::parse("http://127.0.0.1:3080/some/route?x=1").unwrap(),
        &app
    ));
    // Anything else is external: other sites, other ports, mailto.
    assert!(!is_client_url(&WebUrl::parse("https://example.com/").unwrap(), &app));
    assert!(!is_client_url(&WebUrl::parse("http://127.0.0.1:9999/").unwrap(), &app));
    assert!(!is_client_url(&WebUrl::parse("mailto:hi@example.com").unwrap(), &app));
}

#[test]
fn web_url_defaults_to_the_harness_web_app() {
    assert_eq!(web_url(None).as_str(), "http://127.0.0.1:3080/");
}

#[test]
fn default_web_url_matches_the_parsed_default() {
    let parsed = parse("http://127.0.0.1:3080");
    let default = web_url(None);
    assert_eq!(parsed.as_str(), default.as_str());
    assert_eq!(parsed.scheme(), default.scheme());
    assert_eq!(parsed.host_str(), default.host_str());
    assert_eq!(parsed.port_or_known_default(), default.port_or_known_default());
}

#[test]
fn web_url_takes_a_configured_value() {
    let u = web_url(Some("http://localhost:4000".to_string()));
    assert_eq!(u.as_str(), "http://localhost:4000/");
    assert_eq!(u.port_or_known_default(), Some(4000));
}

#[test]
fn web_url_ignores_blank_and_unparsable_values() {
    assert_eq!(web_url(Some("   ".to_string())).as_str(), "http://127.0.0.1:3080/");
    assert_eq!(web_url(Some(String::new())).as_str(), "http://127.0.0.1:3080/");
    assert_eq!(web_url(Some("not a url".to_string())).as_str(), "http://127.0.0.1:3080/");
}

#[test]
fn parsed_urls_expose_normalised_parts() {
    let u = parse("HTTPS://Example.COM/a/../b");
    assert_eq!(u.scheme(), "https");
    assert_eq!(u.host_str(), Some("example.com"));
    assert_eq!(u.port_or_known_default(), Some(443));
    assert_eq!(u.as_str(), "https://example.com/b");
    let m = parse("mailto:hi@example.com");
    assert_eq!(m.host_str(), None);
    assert_eq!(m.port_or_known_default(), None);
    assert!(WebUrl::parse("/relative/only").is_none());
}

#[test]
fn default_ports_make_origins_equal() {
    let app = parse("http://127.0.0.1:80/");
    assert!(is_client_url(&parse("http://127.0.0.1/deep"), &app));
    assert!(!is_client_url(&parse("https://127.0.0.1/"), &app));
}

#[test]
fn development_server_is_internal_only_in_development_builds() {
    let app = parse("http://127.0.0.1:3080/");
    let dev = parse("http://localhost:1420/");
    assert!(is_client_url_in(&dev, &app, true));
    assert!(!is_client_url_in(&dev, &app, false));
    assert!(!is_client_url(&dev, &app));
}

#[test]
fn probe_targets_host_and_port() {
    assert_eq!(
        probe_target(&parse("http://127.0.0.1:3080/")),
        Some(("127.0.0.1".to_string(), 3080))
    );
    assert_eq!(probe_target(&parse("http://example.com/")), Some(("example.com".to_string(), 80)));
    assert_eq!(probe_target(&parse("foo://example.com/")), Some(("example.com".to_string(), 80)));
    assert_eq!(probe_target(&parse("mailto:hi@example.com")), None);
}
