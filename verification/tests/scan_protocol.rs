use kirbyscan::config::Proxy;
use kirbyscan::errors::AppError;
use kirbyscan::proxy::ProxyManager;
use kirbyscan::scanner::{extract_title, socks5_url, u16_to_decimal, ScanEvent, ScanStep, Scanner};
use std::sync::Arc;

fn proxy(ip: &str, port: u16) -> Proxy {
    Proxy { ip: ip.to_string(), port }
}

fn direct_scanner() -> Scanner {
    Scanner::new("192.0.2.1".to_string(), 80, "/".to_string(), None)
}

#[test]
fn url_is_plain_http_on_host_port_and_uri() {
    let scanner = Scanner::new("192.168.1.1".to_string(), 80, "/".to_string(), None);
    assert_eq!(scanner.url(), "http://192.168.1.1:80/");
    let scanner = Scanner::new("10.1.2.3".to_string(), 65535, "/admin".to_string(), None);
    assert_eq!(scanner.url(), "http://10.1.2.3:65535/admin");
}

#[test]
fn port_renders_in_decimal() {
    assert_eq!(u16_to_decimal(0), "0");
    assert_eq!(u16_to_decimal(7), "7");
    assert_eq!(u16_to_decimal(80), "80");
    assert_eq!(u16_to_decimal(8080), "8080");
    assert_eq!(u16_to_decimal(65535), "65535");
}

#[test]
fn proxy_route_is_a_socks5_address() {
    assert_eq!(socks5_url("10.0.0.9:1080"), "socks5://10.0.0.9:1080");
}

#[test]
fn title_extraction_never_fails() {
    // the Err arm of extract_title is defensive only: whatever the body,
    // malformed or not, the result is a success value
    for body in ["", "<", "<<<>>>", "\u{0}", "<title>", "</title><title>x"] {
        assert!(extract_title(body).is_ok());
    }
}

#[test]
fn retry_bound_is_two_attempts() {
    let mut scanner = direct_scanner();
    let step = scanner.record_event(ScanEvent::Failed { timeout: true });
    assert_eq!(step, ScanStep::Retry { failover: false });
    assert_eq!(scanner.attempts, 1);
    let step = scanner.record_event(ScanEvent::Failed { timeout: true });
    assert_eq!(step, ScanStep::Done { result: Err(AppError::RequestError) });
    assert_eq!(scanner.attempts, 2);
    assert!(scanner.finished);
}

#[test]
fn non_timeout_error_fails_fast() {
    // a manager with one live proxy, to show that fail-fast does not touch it
    let manager = Arc::new(ProxyManager::new(vec![proxy("10.0.0.9", 1080)], vec![true]));
    let mut scanner = Scanner::new(
        "192.0.2.2".to_string(),
        80,
        "/".to_string(),
        Some(Arc::clone(&manager)),
    );
    let step = scanner.record_event(ScanEvent::Failed { timeout: false });
    // exactly one request was issued, the result is the request error...
    assert_eq!(step, ScanStep::Done { result: Err(AppError::RequestError) });
    assert_eq!(scanner.attempts, 1);
    assert!(scanner.finished);
    // ...and no failover happened: the pool still offers the same proxy
    assert_eq!(manager.get_current_proxy(), Some(proxy("10.0.0.9", 1080)));
}

#[test]
fn timeout_fails_over_exactly_once_between_attempts() {
    let a = proxy("10.0.0.1", 1080);
    let b = proxy("10.0.0.2", 1080);
    let manager = Arc::new(ProxyManager::new(vec![a.clone(), b], vec![true, true]));
    let mut scanner = Scanner::new(
        "192.0.2.3".to_string(),
        80,
        "/".to_string(),
        Some(Arc::clone(&manager)),
    );
    let step = scanner.record_event(ScanEvent::Failed { timeout: true });
    assert_eq!(step, ScanStep::Retry { failover: true });
    // exactly one discard: current moved from B to A, not to "none"
    assert_eq!(manager.get_current_proxy(), Some(a));
    // the second attempt, against the updated state, succeeds
    let step = scanner.record_event(ScanEvent::Response {
        status: 200,
        body: Some("<title>t</title>".to_string()),
    });
    assert_eq!(
        step,
        ScanStep::Done { result: Ok((200, Some("t".to_string()))) }
    );
    assert_eq!(scanner.attempts, 2);
}

#[test]
fn title_extraction_finds_first_title() {
    assert_eq!(
        extract_title("<html><head><title>Hello</title></head></html>"),
        Ok(Some("Hello".to_string()))
    );
    assert_eq!(
        extract_title("<html><head><title>first</title><title>second</title></head></html>"),
        Ok(Some("first".to_string()))
    );
}

#[test]
fn missing_title_is_success_without_title() {
    assert_eq!(extract_title("<html><body>no title here</body></html>"), Ok(None));
    assert_eq!(extract_title(""), Ok(None));
}

#[test]
fn response_ends_scan_with_status_and_title() {
    let mut scanner = direct_scanner();
    let step = scanner.record_event(ScanEvent::Response {
        status: 404,
        body: Some("<html><head><title>Hello</title></head></html>".to_string()),
    });
    assert_eq!(
        step,
        ScanStep::Done { result: Ok((404, Some("Hello".to_string()))) }
    );
    assert!(scanner.finished);
}

#[test]
fn response_without_title_is_still_success() {
    let mut scanner = direct_scanner();
    let step = scanner.record_event(ScanEvent::Response {
        status: 200,
        body: Some("<html><body>plain</body></html>".to_string()),
    });
    assert_eq!(step, ScanStep::Done { result: Ok((200, None)) });
}

#[test]
fn unreadable_body_is_its_own_terminal_error() {
    let mut scanner = direct_scanner();
    let step = scanner.record_event(ScanEvent::Response { status: 200, body: None });
    assert_eq!(
        step,
        ScanStep::Done { result: Err(AppError::ResponseBodyError) }
    );
    assert!(scanner.finished);
}
