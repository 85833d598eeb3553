use domain_router::routes::{check_domain, Config, Route, RouteError, RouteInput, RouteType, SslMode};

#[test]
fn test_domain_validation() {
    let route = Route::new_domain("example.com".to_string(), 80, true);
    assert!(route.validate().is_ok());

    let invalid_route = Route::new_domain("".to_string(), 80, true);
    assert!(invalid_route.validate().is_err());
}

#[test]
fn test_port_mapping_validation() {
    let route = Route::new_port_mapping(4000, 80, true);
    assert!(route.validate().is_ok());

    let invalid_route = Route::new_port_mapping(0, 80, true);
    assert!(invalid_route.validate().is_err());
}

#[test]
fn domain_grammar() {
    assert!(check_domain("example.com"));
    assert!(check_domain("a-b.c1.example.io"));
    assert!(!check_domain("localhost"));
    assert!(!check_domain("example.c"));
    assert!(!check_domain("example.c0m"));
    assert!(!check_domain(".example.com"));
    assert!(!check_domain("example..com"));
    assert!(!check_domain("exa_mple.com"));
    assert!(!check_domain("example.com."));
}

#[test]
fn each_validation_error() {
    let mut route = Route::new_domain("example.com".to_string(), 0, false);
    assert_eq!(route.validate(), Err(RouteError::ZeroPort));
    route.route_type = RouteType::Domain {
        domain: "example.com".to_string(),
        target_host: String::new(),
        target_port: 80,
    };
    assert_eq!(route.validate(), Err(RouteError::EmptyTargetHost));
    route.route_type = RouteType::Domain {
        domain: "bad domain".to_string(),
        target_host: "127.0.0.1".to_string(),
        target_port: 80,
    };
    assert_eq!(route.validate(), Err(RouteError::InvalidDomainFormat));
    let empty = Route::new_domain(String::new(), 80, false);
    assert_eq!(empty.validate(), Err(RouteError::EmptyDomain));
    route.route_type = RouteType::PortMapping {
        source_port: 3000,
        target_host: "localhost".to_string(),
        target_port: 3000,
    };
    assert_eq!(route.validate(), Err(RouteError::SameLocalPort));
    route.route_type = RouteType::PortMapping {
        source_port: 3000,
        target_host: "127.0.0.1".to_string(),
        target_port: 3000,
    };
    assert_eq!(route.validate(), Ok(()));
}

#[test]
fn route_names() {
    let route = Route::new_port_mapping(8080, 3000, false);
    assert_eq!(route.get_name(), "localhost:8080 → 127.0.0.1:3000");
    let route = Route::new_domain("example.com".to_string(), 80, false);
    assert_eq!(route.get_name(), "example.com");
}

#[test]
fn new_routes_have_fresh_ids() {
    let a = Route::new_port_mapping(8080, 3000, false);
    let b = Route::new_port_mapping(8080, 3000, false);
    assert_eq!(a.id.len(), 36);
    assert_ne!(a.id, b.id);
    assert!(a.enabled);
    assert!(a.created_at > 0);
    let input = RouteInput {
        route_type: RouteType::PortMapping {
            source_port: 1,
            target_host: "h".to_string(),
            target_port: 2,
        },
        ssl_enabled: true,
        ssl_mode: SslMode::Passthrough,
        enabled: false,
    };
    let r = input.into_route();
    assert!(!r.enabled);
    assert!(r.ssl_enabled);
    assert!(matches!(r.ssl_mode, SslMode::Passthrough));
}

#[test]
fn default_config_paths() {
    let config = Config::default_for_home("/home/u");
    assert_eq!(config.version, "1.0.0");
    assert_eq!(config.traefik.config_dir, "/home/u/.config/domain-router/traefik");
    assert_eq!(config.traefik.dashboard_port, 8080);
    assert!(config.routes.is_empty());
    assert_eq!(Config::config_path("/home/u"), "/home/u/.config/domain-router/config.json");
}
