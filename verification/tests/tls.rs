use std::sync::Arc;

use http_server::tls::{
    paths_at, readable_sections, FilePair, Locations, Place, Step, TlsConfig, TlsError,
};
use rustls::client::danger::{HandshakeSignatureValid, ServerCertVerified, ServerCertVerifier};
use rustls::crypto::{verify_tls12_signature, verify_tls13_signature, WebPkiSupportedAlgorithms};
use rustls::pki_types::{CertificateDer, ServerName, UnixTime};
use rustls::{
    ClientConfig, ClientConnection, DigitallySignedStruct, ServerConnection, SignatureScheme,
};

fn pem(label: &str, lines: &[&str]) -> String {
    format!("-----BEGIN {}-----\n{}\n-----END {}-----\n", label, lines.join("\n"), label)
}

fn cert_file() -> Vec<u8> {
    let mut file = pem("CERTIFICATE", &["AQID"]);
    file.push_str(&pem("CERTIFICATE", &["BAUG", "Bwg="]));
    file.into_bytes()
}

fn key_file() -> Vec<u8> {
    let mut file = pem("EC PRIVATE KEY", &["AAAA"]);
    file.push_str(&pem("PRIVATE KEY", &["CQoL"]));
    file.push_str(&pem("PRIVATE KEY", &["DA0O"]));
    file.into_bytes()
}

fn pair(cert: Vec<u8>, key: Vec<u8>) -> FilePair {
    FilePair { cert: Ok(cert), key: Ok(key) }
}

fn good() -> Option<FilePair> {
    Some(pair(cert_file(), key_file()))
}

fn empty() -> Option<FilePair> {
    Some(pair(Vec::new(), Vec::new()))
}

fn error(pair: FilePair) -> String {
    match TlsConfig::load_from_files(pair) {
        Ok(_) => panic!("the files give no material"),
        Err(error) => error.message().unwrap(),
    }
}

fn unread(text: &str) -> Result<Vec<u8>, String> {
    Err(text.to_string())
}

#[test]
fn material_of_two_files() {
    let config = TlsConfig::load_from_files(pair(cert_file(), key_file())).ok().unwrap();
    assert_eq!(config.certs(), &vec![vec![1u8, 2, 3], vec![4u8, 5, 6, 7, 8]]);
    assert_eq!(config.key(), &vec![9u8, 10, 11]);
}

#[test]
fn sections_with_errors_are_passed_over() {
    let mut cert = pem("CERTIFICATE", &["!!!!"]).into_bytes();
    cert.extend(cert_file());
    cert.extend(b"-----BEGIN CERTIFICATE-----\nAQID\n");
    let config = TlsConfig::load_from_files(pair(cert, key_file())).ok().unwrap();
    assert_eq!(config.certs().len(), 2);
    let sections = vec![None, Some(vec![1u8]), None, Some(vec![2u8, 3])];
    assert_eq!(readable_sections(sections), vec![vec![1u8], vec![2u8, 3]]);
}

#[test]
fn errors_of_two_files() {
    let none = b"no sections here\n".to_vec();
    assert_eq!(error(pair(none.clone(), key_file())), "No certificates found in cert file");
    assert_eq!(error(pair(cert_file(), none.clone())), "No private keys found in key file");
    assert_eq!(error(pair(key_file(), key_file())), "No certificates found in cert file");
    assert_eq!(error(FilePair { cert: unread("c"), key: unread("k") }), "c");
    assert_eq!(error(FilePair { cert: Ok(cert_file()), key: unread("k") }), "k");
    assert_eq!(
        error(FilePair { cert: Ok(none), key: unread("k") }),
        "No certificates found in cert file"
    );
}

#[test]
fn errors_by_sections() {
    let files = pair(Vec::new(), Vec::new());
    match TlsConfig::from_sections(files, vec![None], vec![Some(vec![1u8])]) {
        Err(TlsError::NoCertificates) => {}
        _ => panic!("there is no certificate"),
    }
    let files = pair(Vec::new(), Vec::new());
    match TlsConfig::from_sections(files, vec![Some(vec![1u8])], vec![None]) {
        Err(TlsError::NoPrivateKeys) => {}
        _ => panic!("there is no key"),
    }
}

#[test]
fn search_goes_through_the_places() {
    assert!(matches!(
        TlsConfig::load_from_le_config(Place::CertDir, None),
        Step::Look(Place::FullChain)
    ));
    assert!(matches!(
        TlsConfig::load_from_le_config(Place::FullChain, None),
        Step::Look(Place::PlainCert)
    ));
    assert!(matches!(
        TlsConfig::load_from_le_config(Place::PlainCert, None),
        Step::Look(Place::Environment)
    ));
    assert!(matches!(TlsConfig::load_from_le_config(Place::Environment, None), Step::Provision));
}

#[test]
fn search_ends_with_good_files() {
    for place in [Place::CertDir, Place::FullChain, Place::PlainCert, Place::Environment] {
        match TlsConfig::load_from_le_config(place, good()) {
            Step::Done(Ok(config)) => assert_eq!(config.key(), &vec![9u8, 10, 11]),
            _ => panic!("the files give material"),
        }
    }
}

#[test]
fn search_on_files_without_material() {
    assert!(matches!(
        TlsConfig::load_from_le_config(Place::CertDir, empty()),
        Step::Look(Place::FullChain)
    ));
    assert!(matches!(
        TlsConfig::load_from_le_config(Place::FullChain, empty()),
        Step::Done(Err(TlsError::NoCertificates))
    ));
    assert!(matches!(
        TlsConfig::load_from_le_config(Place::PlainCert, empty()),
        Step::Done(Err(TlsError::NoCertificates))
    ));
    assert!(matches!(TlsConfig::load_from_le_config(Place::Environment, empty()), Step::Provision));
    assert!(TlsConfig::load_from_cert_dir(empty()).is_none());
    assert!(TlsConfig::load_from_env(empty()).is_none());
    assert!(TlsConfig::load_from_env(None).is_none());
    assert!(TlsConfig::load_from_env(good()).is_some());
}

#[test]
fn provisioned_material() {
    assert!(TlsConfig::load_provisioned(Ok(pair(cert_file(), key_file()))).is_ok());
    match TlsConfig::load_provisioned(Err("certbot failed".to_string())) {
        Err(error) => assert_eq!(error.message().unwrap(), "certbot failed"),
        Ok(_) => panic!("nothing was provisioned"),
    }
}

#[test]
fn files_of_the_places() {
    let mut locations = Locations {
        cert_dir: "certs/".to_string(),
        domain: "example.com".to_string(),
        cert_path: Some("/c.pem".to_string()),
        key_path: None,
    };
    let local = paths_at(Place::CertDir, &locations).unwrap();
    assert_eq!(local.cert, vec!["certs/", "cert.pem"]);
    assert_eq!(local.key, vec!["certs/", "key.pem"]);
    assert!(local.if_present);
    let chain = paths_at(Place::FullChain, &locations).unwrap();
    assert_eq!(chain.cert, vec!["/etc/letsencrypt/live", "example.com", "fullchain.pem"]);
    assert_eq!(chain.key, vec!["/etc/letsencrypt/live", "example.com", "privkey.pem"]);
    let plain = paths_at(Place::PlainCert, &locations).unwrap();
    assert_eq!(plain.cert, vec!["/etc/letsencrypt/live", "example.com", "cert.pem"]);
    assert_eq!(plain.key, vec!["/etc/letsencrypt/live", "example.com", "key.pem"]);
    assert!(paths_at(Place::Environment, &locations).is_none());
    locations.key_path = Some("/k.pem".to_string());
    let named = paths_at(Place::Environment, &locations).unwrap();
    assert_eq!(named.cert, vec!["/c.pem"]);
    assert_eq!(named.key, vec!["/k.pem"]);
    assert!(!named.if_present);
}

fn matching_pair() -> TlsConfig {
    let cert = pem(
        "CERTIFICATE",
        &[
            "MIIBlTCCATugAwIBAgIUanMOUe8YuWae7LtANAQzl3oqwdQwCgYIKoZIzj0EAwIw",
            "FDESMBAGA1UEAwwJbG9jYWxob3N0MCAXDTI2MTExNTEzMzYwNVoYDzIxMjYxMDIy",
            "MTMzNjA1WjAUMRIwEAYDVQQDDAlsb2NhbGhvc3QwWTATBgcqhkjOPQIBBggqhkjO",
            "PQMBBwNCAAQNxvhiv38/9PLEjHCv1nHwNL+cBaNIsG7PcTIc8uaf7kRff95712ln",
            "9KC/TwTkRzK6hZlwsDJqa5ObMqp1yUDno2kwZzAdBgNVHQ4EFgQURGLkmA5p9yM3",
            "guUFpw3ovCUjWhUwHwYDVR0jBBgwFoAURGLkmA5p9yM3guUFpw3ovCUjWhUwDwYD",
            "VR0TAQH/BAUwAwEB/zAUBgNVHREEDTALgglsb2NhbGhvc3QwCgYIKoZIzj0EAwID",
            "SAAwRQIgaeK2YcbRH+Vo8BWNipow4j6K8apJFPZJ7E/5ePQnOM0CIQD1n+YZYHDH",
            "uc63rt4IDmZCEbWvONH/B6/n/Mrr+3lLgg==",
        ],
    );
    let key = pem(
        "PRIVATE KEY",
        &[
            "MIGHAgEAMBMGByqGSM49AgEGCCqGSM49AwEHBG0wawIBAQQg9KbEDogWxKh/WqKU",
            "5DSwRUt48HXHm37HIV0o2D0///KhRANCAAQNxvhiv38/9PLEjHCv1nHwNL+cBaNI",
            "sG7PcTIc8uaf7kRff95712ln9KC/TwTkRzK6hZlwsDJqa5ObMqp1yUDn",
        ],
    );
    TlsConfig::load_from_files(pair(cert.into_bytes(), key.into_bytes())).ok().unwrap()
}

/// Takes any certificate, and holds the handshake's signature against it.
#[derive(Debug)]
struct AnyCertificate(WebPkiSupportedAlgorithms);

impl ServerCertVerifier for AnyCertificate {
    fn verify_server_cert(
        &self,
        _end_entity: &CertificateDer<'_>,
        _intermediates: &[CertificateDer<'_>],
        _server_name: &ServerName<'_>,
        _ocsp_response: &[u8],
        _now: UnixTime,
    ) -> Result<ServerCertVerified, rustls::Error> {
        Ok(ServerCertVerified::assertion())
    }

    fn verify_tls12_signature(
        &self,
        message: &[u8],
        cert: &CertificateDer<'_>,
        dss: &DigitallySignedStruct,
    ) -> Result<HandshakeSignatureValid, rustls::Error> {
        verify_tls12_signature(message, cert, dss, &self.0)
    }

    fn verify_tls13_signature(
        &self,
        message: &[u8],
        cert: &CertificateDer<'_>,
        dss: &DigitallySignedStruct,
    ) -> Result<HandshakeSignatureValid, rustls::Error> {
        verify_tls13_signature(message, cert, dss, &self.0)
    }

    fn supported_verify_schemes(&self) -> Vec<SignatureScheme> {
        self.0.supported_schemes()
    }
}

#[test]
fn acceptor_of_a_matching_pair() {
    assert!(matching_pair().create_acceptor().is_ok());
}

#[test]
fn acceptor_uses_the_chain_and_the_key() {
    let config = matching_pair();
    let acceptor = config.create_acceptor().ok().unwrap();
    let mut server = ServerConnection::new(acceptor.config().clone()).unwrap();
    let algorithms = rustls::crypto::ring::default_provider().signature_verification_algorithms;
    let client_config = ClientConfig::builder()
        .dangerous()
        .with_custom_certificate_verifier(Arc::new(AnyCertificate(algorithms)))
        .with_no_client_auth();
    let name = ServerName::try_from("localhost").unwrap();
    let mut client = ClientConnection::new(Arc::new(client_config), name).unwrap();
    for _ in 0..10 {
        let mut sent: Vec<u8> = Vec::new();
        while client.wants_write() {
            client.write_tls(&mut sent).unwrap();
        }
        let mut unread = sent.as_slice();
        while !unread.is_empty() {
            server.read_tls(&mut unread).unwrap();
            server.process_new_packets().unwrap();
        }
        let mut answered: Vec<u8> = Vec::new();
        while server.wants_write() {
            server.write_tls(&mut answered).unwrap();
        }
        let mut unread = answered.as_slice();
        while !unread.is_empty() {
            client.read_tls(&mut unread).unwrap();
            client.process_new_packets().unwrap();
        }
    }
    assert!(!client.is_handshaking() && !server.is_handshaking());
    let shown: Vec<Vec<u8>> =
        client.peer_certificates().unwrap().iter().map(|der| der.to_vec()).collect();
    assert_eq!(&shown, config.certs());
    assert!(server.peer_certificates().is_none());
}

#[test]
fn acceptor_of_bytes_that_are_no_key() {
    let config = TlsConfig::load_from_files(pair(cert_file(), key_file())).ok().unwrap();
    match config.create_acceptor() {
        Err(TlsError::Rejected(_)) => {}
        _ => panic!("the key is none"),
    }
}
