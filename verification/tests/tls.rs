use portal_server_agent::tls::{chain_of, client_config, client_config_with, TlsError};

/// A key and a certificate for it that can be a CA.
fn material() -> (Vec<u8>, Vec<u8>) {
    let key = rcgen::KeyPair::generate().unwrap();
    let mut params = rcgen::CertificateParams::new(vec!["portal.example".to_string()]).unwrap();
    params.is_ca = rcgen::IsCa::Ca(rcgen::BasicConstraints::Unconstrained);
    let certificate = params.self_signed(&key).unwrap();
    (key.serialize_pem().into_bytes(), certificate.pem().into_bytes())
}

fn section(kind: &str, body: &str) -> Vec<u8> {
    format!("-----BEGIN {kind}-----\n{body}\n-----END {kind}-----\n").into_bytes()
}

fn error(ca: Option<Vec<u8>>, cert: Option<Vec<u8>>, key: Option<Vec<u8>>) -> TlsError {
    match client_config(ca, cert, key) {
        Ok(_) => panic!("configured"),
        Err(e) => e,
    }
}

#[test]
fn complete_material_makes_a_configuration() {
    let (key, cert) = material();
    let (_, ca) = material();
    let config = client_config(Some(ca), Some(cert), Some(key)).unwrap();
    assert!(config.client_auth_cert_resolver.has_certs());
}

#[test]
fn ca_files_without_certificates_leave_the_public_roots() {
    let (key, cert) = material();
    assert!(client_config(Some(Vec::new()), Some(cert.clone()), Some(key.clone())).is_ok());
    let none = rustls::RootCertStore::empty();
    match client_config_with(none, Some(Vec::new()), Some(cert), Some(key)) {
        Ok(_) => panic!("configured"),
        Err(e) => assert_eq!(e, TlsError::NoCaCertificate),
    }
}

#[test]
fn ca_files_alone_can_be_the_roots() {
    let (key, cert) = material();
    let none = rustls::RootCertStore::empty();
    assert!(client_config_with(none, Some(cert.clone()), Some(cert), Some(key)).is_ok());
}

#[test]
fn each_part_of_the_material_can_fail() {
    let (key, cert) = material();
    let (other_key, ca) = material();
    let bad = section("CERTIFICATE", "!!!!");
    let empty = section("CERTIFICATE", "AAAA");
    let bad_key = section("PRIVATE KEY", "!!!!");
    let some = |v: &Vec<u8>| Some(v.clone());
    assert_eq!(error(None, some(&cert), some(&key)), TlsError::ReadCa);
    assert_eq!(error(some(&bad), some(&cert), some(&key)), TlsError::ParseCa);
    assert_eq!(error(some(&empty), some(&cert), some(&key)), TlsError::AddCa);
    assert_eq!(error(some(&ca), None, some(&key)), TlsError::ReadCertificate);
    assert_eq!(error(some(&ca), some(&bad), some(&key)), TlsError::ParseCertificate);
    assert_eq!(error(some(&ca), Some(Vec::new()), some(&key)), TlsError::NoCertificate);
    assert_eq!(error(some(&ca), some(&cert), None), TlsError::ReadKey);
    assert_eq!(error(some(&ca), some(&cert), some(&bad_key)), TlsError::ParseKey);
    assert_eq!(error(some(&ca), some(&cert), some(&cert)), TlsError::NoKey);
    assert_eq!(error(some(&ca), some(&cert), some(&other_key)), TlsError::Build);
}

#[test]
fn the_first_error_is_reported() {
    let bad = section("CERTIFICATE", "!!!!");
    assert_eq!(error(None, None, None), TlsError::ReadCa);
    assert_eq!(error(Some(Vec::new()), None, None), TlsError::ReadCertificate);
    let mut ca = section("CERTIFICATE", "AAAA");
    ca.extend_from_slice(&bad);
    assert_eq!(error(Some(ca), None, None), TlsError::AddCa);
    let (_, cert) = material();
    assert_eq!(error(Some(Vec::new()), Some(cert), None), TlsError::ReadKey);
}

#[test]
fn chains_keep_their_order() {
    let items = vec![Some(vec![1]), Some(vec![2, 3])];
    assert_eq!(chain_of(&items), Ok(vec![vec![1], vec![2, 3]]));
    assert_eq!(chain_of(&vec![Some(vec![1]), None]), Err(TlsError::ParseCertificate));
    assert_eq!(chain_of(&Vec::new()), Err(TlsError::NoCertificate));
}

#[test]
fn tls_errors_name_their_files() {
    let message = |e: TlsError| e.message("c.pem", "c.key", "ca.pem");
    assert_eq!(message(TlsError::ReadCa), "reading ca.pem");
    assert_eq!(message(TlsError::ParseCa), "parsing CA certificate");
    assert_eq!(message(TlsError::AddCa), "adding CA to root store");
    assert_eq!(message(TlsError::NoCaCertificate), "no certificates found in ca.pem");
    assert_eq!(message(TlsError::ReadCertificate), "reading c.pem");
    assert_eq!(message(TlsError::ParseCertificate), "parsing client certificate");
    assert_eq!(message(TlsError::NoCertificate), "no certificates found in c.pem");
    assert_eq!(message(TlsError::ReadKey), "reading c.key");
    assert_eq!(message(TlsError::ParseKey), "parsing client key");
    assert_eq!(message(TlsError::NoKey), "no private key found in c.key");
    assert_eq!(message(TlsError::Build), "building TLS config with client certificate");
}
