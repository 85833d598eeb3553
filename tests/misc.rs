use domain_router::acme::{AcmeManager, LetsEncryptConfig};
use domain_router::ports::{get_available_port, PortError};
use domain_router::privilege::needs_privilege;

fn check_port(runtime: &tokio::runtime::Runtime, port: u16) -> bool {
    runtime.block_on(async { tokio::net::TcpListener::bind(("127.0.0.1", port)).await.is_ok() })
}

#[test]
fn test_acme_manager_creation() {
    let manager = AcmeManager::new("test@example.com".to_string(), true);
    assert!(manager.is_ok());
}

#[test]
fn acme_settings() {
    let m = AcmeManager::with_config_dir("/cfg", "a@b.c".to_string(), false);
    assert_eq!(m.cache_dir(), "/cfg/domain-router/acme");
    assert_eq!(m.email(), "a@b.c");
    assert!(!m.is_staging());
    assert_eq!(m.cached_certificate_path("x.test"), "/cfg/domain-router/acme/x.test.pem");
    assert!(!m.has_cached_certificate("x.test"));
    let c = LetsEncryptConfig::new("a@b.c".to_string(), vec!["x.test".to_string()], true);
    assert_eq!(c.domains.len(), 1);
    assert!(c.use_staging);
}

#[test]
fn test_needs_privilege() {
    assert!(needs_privilege(&[80, 443]));
    assert!(needs_privilege(&[22, 8080]));
    assert!(!needs_privilege(&[8080, 8443]));
    assert!(!needs_privilege(&[3000]));
}

#[test]
fn privilege_edges() {
    assert!(!needs_privilege(&[]));
    assert!(needs_privilege(&[1023]));
    assert!(!needs_privilege(&[1024]));
}

#[test]
fn test_get_available_port() {
    let runtime = tokio::runtime::Builder::new_current_thread().enable_io().build().unwrap();
    let port = get_available_port(10000, |p| check_port(&runtime, p)).unwrap();
    assert!(port >= 10000);
    assert!(port < 65535);
}

#[test]
fn port_search_order() {
    assert_eq!(get_available_port(100, |p| p >= 105), Ok(105));
    assert_eq!(get_available_port(65000, |_| false), Err(PortError::NoAvailablePort));
    assert_eq!(get_available_port(65535, |_| true), Err(PortError::NoAvailablePort));
}
