use rust_proxy::errors::ConfigError;
use rust_proxy::tls::validate_tls_config;

// A PEM certificate section: the parser checks the section framing and the
// base64, not the payload, so a tiny payload stands in for a certificate.
fn cert_pem() -> String {
    String::from("-----BEGIN CERTIFICATE-----\nAAAA\n-----END CERTIFICATE-----\n")
}

// A PKCS#8 document for an Ed25519 key of all-zero bytes, rendered by the
// same crate that later parses it.
fn key_pem() -> String {
    let mut key_bytes: Vec<u8> = vec![0x04, 0x20];
    key_bytes.extend(std::iter::repeat(0u8).take(32));
    let algorithm = pkcs8::AlgorithmIdentifier {
        oid: pkcs8::ObjectIdentifier::new("1.3.101.112"),
        parameters: None,
    };
    let info = pkcs8::PrivateKeyInfo::new(algorithm, &key_bytes);
    let pem = info.to_pem(pkcs8::LineEnding::LF).expect("a fresh key renders");
    pem.as_str().to_owned()
}

#[test]
fn validate_tls_config_accepts_valid_material() {
    let res = validate_tls_config(&Some(cert_pem()), &Some(key_pem()));
    assert!(res.is_ok());
}

#[test]
fn validate_tls_config_rejects_bad_private_key() {
    let res = validate_tls_config(&Some(cert_pem()), &Some(String::from("private key")));
    assert!(res.is_err());
    assert!(matches!(res.unwrap_err(), ConfigError::KeyInvalid));
    let msg = ConfigError::KeyInvalid.message();
    assert_eq!(msg, "Can not parse the key pem.");
}

#[test]
fn validate_tls_config_rejects_bad_certificate() {
    let res = validate_tls_config(&Some(String::from("test")), &Some(key_pem()));
    assert!(res.is_err());
    assert!(matches!(res.unwrap_err(), ConfigError::CertInvalid));
    let msg = ConfigError::CertInvalid.message();
    assert_eq!(msg, "Can not parse the certs pem.");
}

#[test]
fn validate_tls_config_rejects_missing_material() {
    let res = validate_tls_config(&None, &Some(key_pem()));
    assert!(matches!(res.unwrap_err(), ConfigError::CertOrKeyMissing));
    let res = validate_tls_config(&Some(cert_pem()), &None);
    assert!(matches!(res.unwrap_err(), ConfigError::CertOrKeyMissing));
    assert_eq!(ConfigError::CertOrKeyMissing.message(), "Cert or key is none");
}

#[test]
fn a_certificate_section_is_required_not_just_any_pem() {
    // a key PEM holds no certificate section, so it is no certificate
    let res = validate_tls_config(&Some(key_pem()), &Some(key_pem()));
    assert!(matches!(res.unwrap_err(), ConfigError::CertInvalid));
}
