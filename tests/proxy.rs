use domain_router::listener::{step, ListenerAction, ListenerEvent, ListenerState};
use domain_router::proxy::{get_status, plan_start, ProxyManager};
use domain_router::route_table::{build_port_targets, build_required_ports, build_route_map, PortTarget};
use domain_router::routes::{Route, RouteType};

fn mapping(source_port: u16, host: &str, target_port: u16, ssl: bool, enabled: bool) -> Route {
    let mut r = Route::new_port_mapping(source_port, target_port, ssl);
    r.route_type = RouteType::PortMapping {
        source_port,
        target_host: host.to_string(),
        target_port,
    };
    r.enabled = enabled;
    r
}

fn sorted(mut targets: Vec<PortTarget>) -> Vec<(u16, String, u16)> {
    targets.sort_by_key(|t| t.port);
    targets.into_iter().map(|t| (t.port, t.target_host, t.target_port)).collect()
}

#[test]
fn test_build_route_map() {
    let routes = vec![
        Route::new_domain("example.com".to_string(), 8080, false),
    ];

    let map = build_route_map(&routes);
    let info = map.get(&"example.com".to_string()).unwrap();
    assert_eq!(info.target_host, "127.0.0.1");
    assert_eq!(info.target_port, 8080);
    assert!(!info.ssl_enabled);
}

#[test]
fn rebuild_twice_gives_same_entries() {
    let routes = vec![
        Route::new_domain("a.test".to_string(), 1000, true),
        mapping(8080, "10.0.0.2", 3000, false, true),
        mapping(8080, "10.0.0.3", 3001, false, true),
    ];
    let first = build_route_map(&routes);
    let second = build_route_map(&routes);
    for key in ["a.test", "localhost:8080", "localhost:9"] {
        let k = key.to_string();
        let a = first.get(&k).map(|i| (i.target_host.clone(), i.target_port, i.ssl_enabled));
        let b = second.get(&k).map(|i| (i.target_host.clone(), i.target_port, i.ssl_enabled));
        assert_eq!(a, b);
    }
    let last = first.get(&"localhost:8080".to_string()).unwrap();
    assert_eq!((last.target_host.as_str(), last.target_port), ("10.0.0.3", 3001));
}

#[test]
fn disabled_routes_leave_no_trace() {
    let mut domain = Route::new_domain("off.test".to_string(), 1000, false);
    domain.enabled = false;
    let routes = vec![domain, mapping(9000, "127.0.0.1", 3000, true, false)];
    let map = build_route_map(&routes);
    assert!(map.get(&"off.test".to_string()).is_none());
    assert!(map.get(&"localhost:9000".to_string()).is_none());
    assert!(build_port_targets(&routes).is_empty());
    assert!(build_required_ports(&routes).is_empty());
}

#[test]
fn port_mapping_without_tls_needs_one_port() {
    let routes = vec![mapping(8080, "127.0.0.1", 3000, false, true)];
    assert_eq!(sorted(build_port_targets(&routes)), vec![(8080, "127.0.0.1".to_string(), 3000)]);
    assert_eq!(build_required_ports(&routes), vec![8080]);
    let info = build_route_map(&routes);
    assert_eq!(info.get(&"localhost:8080".to_string()).unwrap().target_port, 3000);
}

#[test]
fn tls_on_port_80_adds_443() {
    let routes = vec![mapping(80, "127.0.0.1", 3000, true, true)];
    assert_eq!(
        sorted(build_port_targets(&routes)),
        vec![(80, "127.0.0.1".to_string(), 3000), (443, "127.0.0.1".to_string(), 3000)]
    );
    assert_eq!(build_required_ports(&routes), vec![80, 443]);
    let plan = plan_start(&routes);
    let tls: Vec<u16> = plan.listeners.iter().filter(|t| t.uses_tls()).map(|t| t.port).collect();
    assert_eq!(tls, vec![443]);
}

#[test]
fn tls_on_other_port_adds_nothing() {
    let routes = vec![mapping(8080, "127.0.0.1", 3000, true, true), mapping(80, "h", 1, false, true)];
    assert_eq!(
        sorted(build_port_targets(&routes)),
        vec![(80, "h".to_string(), 1), (8080, "127.0.0.1".to_string(), 3000)]
    );
}

#[test]
fn restart_binds_only_new_ports() {
    let mut proxy = ProxyManager::new();
    assert!(!get_status(&proxy).running);
    let first = vec![mapping(8080, "127.0.0.1", 3000, false, true), mapping(9000, "h", 1, false, true)];
    let previous = proxy.start(plan_start(&first));
    assert!(previous.is_empty());
    assert!(get_status(&proxy).running);
    let stopped = proxy.stop();
    assert_eq!(sorted(stopped).iter().map(|t| t.0).collect::<Vec<_>>(), vec![8080, 9000]);
    assert!(!proxy.is_running());
    let second = vec![mapping(9000, "h", 2, false, true), mapping(80, "h", 2, true, true)];
    proxy.start(plan_start(&second));
    let bound = proxy.stop();
    assert_eq!(sorted(bound).iter().map(|t| t.0).collect::<Vec<_>>(), vec![80, 443, 9000]);
    assert!(proxy.stop().is_empty());
}

#[test]
fn update_swaps_targets_and_keeps_listeners() {
    let mut proxy = ProxyManager::new();
    assert!(!proxy.update(&[]));
    let routes = vec![mapping(8080, "127.0.0.1", 3000, false, true), mapping(9000, "h", 1, false, true)];
    proxy.start(plan_start(&routes));
    let changed = vec![mapping(8080, "127.0.0.1", 3000, false, true), mapping(9000, "h", 7, false, true)];
    assert!(proxy.update(&changed));
    assert_eq!(proxy.lookup(&"localhost:9000".to_string()).unwrap().target_port, 7);
    assert_eq!(proxy.lookup(&"localhost:8080".to_string()).unwrap().target_port, 3000);
    let bound = proxy.stop();
    assert_eq!(
        sorted(bound),
        vec![(8080, "127.0.0.1".to_string(), 3000), (9000, "h".to_string(), 1)]
    );
}

#[test]
fn status_reports_fixed_ports() {
    let proxy = ProxyManager::new();
    let status = get_status(&proxy);
    assert_eq!((status.http_port, status.https_port, status.active_routes), (80, 443, 0));
}

#[test]
fn listener_life() {
    assert_eq!(
        step(ListenerState::Bound, ListenerEvent::BindSucceeded),
        (ListenerState::Accepting, ListenerAction::Continue)
    );
    assert_eq!(
        step(ListenerState::Bound, ListenerEvent::BindFailed),
        (ListenerState::Stopped, ListenerAction::LogAndExit)
    );
    assert_eq!(
        step(ListenerState::Accepting, ListenerEvent::ConnectionAccepted),
        (ListenerState::Accepting, ListenerAction::SpawnForwarder)
    );
    assert_eq!(
        step(ListenerState::Accepting, ListenerEvent::ConnectionFailed),
        (ListenerState::Accepting, ListenerAction::LogAndContinue)
    );
    assert_eq!(
        step(ListenerState::Accepting, ListenerEvent::ShutdownSignal),
        (ListenerState::Stopped, ListenerAction::Exit)
    );
    assert_eq!(
        step(ListenerState::Stopped, ListenerEvent::ConnectionAccepted),
        (ListenerState::Stopped, ListenerAction::Exit)
    );
}
