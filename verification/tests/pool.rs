use kirbyscan::config::Proxy;
use kirbyscan::proxy::ProxyManager;
use kirbyscan::scanner::{ScanEvent, ScanStep, Scanner};
use kirbyscan::errors::AppError;
use std::sync::Arc;

fn proxy(ip: &str, port: u16) -> Proxy {
    Proxy { ip: ip.to_string(), port }
}

#[test]
fn construction_selects_last_reachable() {
    let proxies = vec![proxy("10.0.0.1", 1080), proxy("10.0.0.2", 1080), proxy("10.0.0.3", 1080)];
    let alive = vec![true, true, false];
    let manager = ProxyManager::new(proxies, alive);
    // the last *reachable* proxy is current, not the last configured one
    assert_eq!(manager.get_current_proxy(), Some(proxy("10.0.0.2", 1080)));
}

#[test]
fn construction_with_no_reachable_proxy_is_direct() {
    let proxies = vec![proxy("10.0.0.1", 1080), proxy("10.0.0.2", 1080)];
    let manager = ProxyManager::new(proxies, vec![false, false]);
    assert_eq!(manager.get_current_proxy(), None);
}

#[test]
fn pool_shrinks_and_never_resurrects() {
    let proxies = vec![proxy("a", 1), proxy("b", 2), proxy("c", 3)];
    let manager = ProxyManager::new(proxies, vec![true, true, true]);
    assert_eq!(manager.get_current_proxy(), Some(proxy("c", 3)));
    manager.discard_current_proxy();
    assert_eq!(manager.get_current_proxy(), Some(proxy("b", 2)));
    manager.discard_current_proxy();
    assert_eq!(manager.get_current_proxy(), Some(proxy("a", 1)));
    manager.discard_current_proxy();
    assert_eq!(manager.get_current_proxy(), None);
    // a discarded proxy never comes back, however often we ask or discard
    manager.discard_current_proxy();
    assert_eq!(manager.get_current_proxy(), None);
}

#[test]
fn current_is_always_a_configured_member_or_none() {
    let configured = [proxy("a", 1), proxy("b", 2), proxy("c", 3)];
    let manager = ProxyManager::new(configured.to_vec(), vec![true, false, true]);
    for _ in 0..5 {
        match manager.get_current_proxy() {
            Some(p) => assert!(configured.contains(&p)),
            None => {}
        }
        manager.discard_current_proxy();
    }
    assert_eq!(manager.get_current_proxy(), None);
}

#[test]
fn interleaved_reads_see_consistent_snapshots() {
    let proxies: Vec<Proxy> = (0..64).map(|i| proxy("10.0.0.1", i as u16)).collect();
    let configured = proxies.clone();
    let manager = Arc::new(ProxyManager::new(proxies, vec![true; 64]));
    // reads interleaved with discards observe only pre- or post-discard
    // states: a configured member, with the count shrinking by one each time
    for step in 0..64u16 {
        match manager.get_current_proxy() {
            Some(p) => {
                assert!(configured.contains(&p));
                assert_eq!(p, proxy("10.0.0.1", 63 - step));
            }
            None => panic!("pool emptied too early"),
        }
        manager.discard_current_proxy();
    }
    assert_eq!(manager.get_current_proxy(), None);
}

#[test]
fn end_to_end_failover_to_direct_mode() {
    // two proxies, only B reachable
    let a = proxy("10.0.0.1", 1080);
    let b = proxy("10.0.0.2", 1080);
    let manager = Arc::new(ProxyManager::new(vec![a, b.clone()], vec![false, true]));
    assert_eq!(manager.get_current_proxy(), Some(b));
    manager.discard_current_proxy();
    assert_eq!(manager.get_current_proxy(), None);
    // a subsequent scan still works, in direct (no-proxy) mode
    let mut scanner = Scanner::new(
        "192.0.2.7".to_string(),
        80,
        "/".to_string(),
        Some(Arc::clone(&manager)),
    );
    let step = scanner.record_event(ScanEvent::Response {
        status: 200,
        body: Some("<html><head><title>ok</title></head></html>".to_string()),
    });
    assert_eq!(
        step,
        ScanStep::Done { result: Ok((200, Some("ok".to_string()))) }
    );
    // and a timed-out direct attempt still fails over gracefully: the pool
    // stays empty and the retry is direct again
    let mut second = Scanner::new(
        "192.0.2.8".to_string(),
        80,
        "/".to_string(),
        Some(Arc::clone(&manager)),
    );
    let step = second.record_event(ScanEvent::Failed { timeout: true });
    assert_eq!(step, ScanStep::Retry { failover: true });
    assert_eq!(manager.get_current_proxy(), None);
    let step = second.record_event(ScanEvent::Failed { timeout: true });
    assert_eq!(
        step,
        ScanStep::Done { result: Err(AppError::RequestError) }
    );
}
