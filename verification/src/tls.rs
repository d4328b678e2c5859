//! Validation of the TLS material an HTTPS service carries: the certificate
//! PEM must yield at least one certificate and the key PEM must parse as a
//! PKCS#8 private key. The parsers are outside crates; what they accept is
//! named, not restated.
use vstd::prelude::*;
use pkcs8::der::Document;
use crate::errors::ConfigError;

verus! {

/// The certificates a PEM string yields, or nothing where it cannot be read.
pub uninterp spec fn pem_certs(s: Seq<char>) -> Option<Seq<Seq<u8>>>;

/// Whether a string parses as a PEM-encoded PKCS#8 private key.
pub uninterp spec fn pkcs8_key_ok(s: Seq<char>) -> bool;

/// Relies on `rustls_pemfile::certs`: the DER payloads of the certificate
/// sections of a PEM string, a function of the string alone; a read error
/// becomes `None`.
#[verifier::external_body]
fn parse_pem_certs(pem: &str) -> (r: Option<Vec<Vec<u8>>>)
    ensures
        r.deep_view() == pem_certs(pem@),
{
    let mut reader = std::io::BufReader::new(pem.as_bytes());
    match rustls_pemfile::certs(&mut reader) {
        Ok(certs) => Some(certs),
        Err(_) => None,
    }
}

/// Relies on `pkcs8::PrivateKeyDocument::from_pem`: whether the string is a
/// PEM document labelled as a private key whose DER parses as PKCS#8, a
/// function of the string alone.
#[verifier::external_body]
fn parse_pkcs8_key(pem: &str) -> (r: bool)
    ensures
        r == pkcs8_key_ok(pem@),
{
    match pkcs8::PrivateKeyDocument::from_pem(pem) {
        Ok(_) => true,
        Err(_) => false,
    }
}

/// Whether a certificate PEM is acceptable: readable and non-empty.
pub open spec fn cert_pem_ok(s: Seq<char>) -> bool {
    match pem_certs(s) {
        Some(certs) => certs.len() > 0,
        None => false,
    }
}

/// The verdict on one service's TLS material: both parts must be present,
/// the certificate PEM must yield a certificate, the key PEM must parse.
pub open spec fn spec_validate_tls(
    cert: Option<Seq<char>>,
    key: Option<Seq<char>>,
) -> Result<(), ConfigError> {
    if cert is None || key is None {
        Err(ConfigError::CertOrKeyMissing)
    } else if !cert_pem_ok(cert->Some_0) {
        Err(ConfigError::CertInvalid)
    } else if !pkcs8_key_ok(key->Some_0) {
        Err(ConfigError::KeyInvalid)
    } else {
        Ok(())
    }
}

/// Validates the TLS material of an HTTPS service.
pub fn validate_tls_config(cert_pem: &Option<String>, key_pem: &Option<String>) -> (r: Result<
    (),
    ConfigError,
>)
    ensures
        r == spec_validate_tls(
            match cert_pem {
                Some(c) => Some(c@),
                None => None,
            },
            match key_pem {
                Some(k) => Some(k@),
                None => None,
            },
        ),
{
    let (cert, key) = match (cert_pem, key_pem) {
        (Some(c), Some(k)) => (c, k),
        _ => {
            return Err(ConfigError::CertOrKeyMissing);
        },
    };
    let cert_ok = match parse_pem_certs(cert.as_str()) {
        Some(certs) => certs.len() > 0,
        None => false,
    };
    if !cert_ok {
        return Err(ConfigError::CertInvalid);
    }
    if !parse_pkcs8_key(key.as_str()) {
        return Err(ConfigError::KeyInvalid);
    }
    Ok(())
}

} // verus!
