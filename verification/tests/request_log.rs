use portfolio::request_log::{campaign_source, request_log_line};

const FIREFOX: &str = "Mozilla/5.0 (X11; Linux x86_64) Firefox/120.0";

#[test]
fn browser_page_requests_are_logged() {
    let line = request_log_line(Some("1.2.3.4"), Some(FIREFOX), "GET", "/blog", None);
    assert_eq!(line.as_deref(), Some("Request: 1.2.3.4 GET /blog"));
}

#[test]
fn unknown_client_address() {
    let line = request_log_line(None, Some(FIREFOX), "POST", "/contact", None);
    assert_eq!(line.as_deref(), Some("Request: unknown POST /contact"));
}

#[test]
fn bots_and_assets_are_not_logged() {
    assert_eq!(request_log_line(None, Some("curl/8.0"), "GET", "/", None), None);
    assert_eq!(request_log_line(None, None, "GET", "/", None), None);
    assert_eq!(request_log_line(None, Some(FIREFOX), "GET", "/static/app.css", None), None);
    assert_eq!(request_log_line(None, Some(FIREFOX), "GET", "/wasm/x.wasm", None), None);
    assert_eq!(request_log_line(None, Some(FIREFOX), "GET", "/favicon.ico", None), None);
}

#[test]
fn campaign_sources_are_named() {
    assert_eq!(campaign_source(Some("utm_source=ig")), " :: Instagram");
    assert_eq!(campaign_source(Some("a=1&utm_source=fb&b=2")), " :: Facebook");
    assert_eq!(campaign_source(Some("utm_source=tw")), " :: Twitter");
    assert_eq!(campaign_source(Some("utm_source=li")), " :: LinkedIn");
    assert_eq!(campaign_source(Some("utm_source=newsletter")), "newsletter");
    assert_eq!(campaign_source(Some("utm_source=utm_source=ig")), " :: Instagram");
    assert_eq!(campaign_source(Some("x=utm_source=ig")), "");
    assert_eq!(campaign_source(Some("")), "");
    assert_eq!(campaign_source(None), "");
    let line = request_log_line(Some("::1"), Some(FIREFOX), "GET", "/", Some("utm_source=li"));
    assert_eq!(line.as_deref(), Some("Request: ::1 GET / :: LinkedIn"));
}
