use domain_router::certs::{
    build_tls_config, cert_paths, check_pem_outcome, generate_self_signed_cert, needs_generation, organization,
    subject_alt_names, CertificateError,
};

#[test]
fn test_generate_self_signed_cert() {
    let result = generate_self_signed_cert("example.com");
    assert!(result.is_ok());

    let (cert, key) = result.unwrap();
    assert!(cert.contains("BEGIN CERTIFICATE"));
    assert!(key.contains("BEGIN PRIVATE KEY"));
}

#[test]
fn names_covered_by_a_certificate() {
    assert_eq!(
        subject_alt_names("example.com"),
        vec!["example.com".to_string(), "*.example.com".to_string(), "localhost".to_string()]
    );
}

#[test]
fn cached_material_is_reused() {
    assert!(!needs_generation(true, true));
    assert!(needs_generation(false, true));
    assert!(needs_generation(true, false));
    assert!(needs_generation(false, false));
}

#[test]
fn cache_paths() {
    let (cert, key) = cert_paths("/home/u", "localhost");
    assert_eq!(cert, "/home/u/.config/domain-router/certs/localhost.crt");
    assert_eq!(key, "/home/u/.config/domain-router/certs/localhost.key");
}

#[test]
fn tls_config_from_generated_material() {
    let (cert, key) = generate_self_signed_cert("localhost").unwrap();
    assert!(build_tls_config(cert.as_bytes(), key.as_bytes()).is_ok());
    assert_eq!(build_tls_config(cert.as_bytes(), b"").err(), Some(CertificateError::NoPrivateKey));
    assert_eq!(build_tls_config(b"", key.as_bytes()).err(), Some(CertificateError::NoCertificates));
    assert_eq!(build_tls_config(key.as_bytes(), cert.as_bytes()).err(), Some(CertificateError::NoPrivateKey));
}

#[test]
fn pem_outcomes() {
    assert_eq!(check_pem_outcome(None, Some(true)), Err(CertificateError::CertificateParse));
    assert_eq!(check_pem_outcome(Some(1), None), Err(CertificateError::KeyParse));
    assert_eq!(check_pem_outcome(Some(1), Some(false)), Err(CertificateError::NoPrivateKey));
    assert_eq!(check_pem_outcome(Some(0), Some(true)), Err(CertificateError::NoCertificates));
    assert_eq!(check_pem_outcome(Some(2), Some(true)), Ok(()));
}

#[test]
fn mismatched_pair_is_refused() {
    let (cert, _) = generate_self_signed_cert("a.test").unwrap();
    let (_, other_key) = generate_self_signed_cert("a.test").unwrap();
    assert_eq!(
        build_tls_config(cert.as_bytes(), other_key.as_bytes()).err(),
        Some(CertificateError::Configuration)
    );
}

#[test]
fn non_ascii_names_are_refused() {
    assert_eq!(generate_self_signed_cert("exämple.com").err(), Some(CertificateError::InvalidNames));
    assert!(generate_self_signed_cert("127.0.0.1").is_ok());
}

#[test]
fn fixed_organization() {
    assert_eq!(organization(), "Domain Router");
}
