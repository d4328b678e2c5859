//! Errors of the configuration operations, each with the message the control
//! plane sends in a 500 body.
use vstd::prelude::*;
use vstd::string::StringExecFns;

verus! {

/// Why a configuration edit was rejected. No partial application: a rejected
/// edit leaves the snapshot untouched.
#[derive(Clone, Copy, PartialEq, Eq, Structural, Debug)]
pub enum ConfigError {
    /// An HTTPS service without certificate or key material.
    CertOrKeyMissing,
    /// The certificate PEM yields no certificate.
    CertInvalid,
    /// The key PEM is no PKCS#8 private key.
    KeyInvalid,
    /// No route carries the requested id.
    RouteNotFound,
    /// Two services claim the same listen port.
    DuplicatePort,
    /// Two routes carry the same id.
    DuplicateRouteId,
    /// A service without routes.
    EmptyService,
    /// A route without upstreams.
    EmptyCluster,
    /// More upstreams than the liveness counters can carry.
    OversizedCluster,
    /// Weighted selection whose weights do not fit the cluster or sum to zero.
    BadWeights,
}

/// The message each error surfaces to the control-plane client.
pub open spec fn spec_message(e: ConfigError) -> Seq<char> {
    match e {
        ConfigError::CertOrKeyMissing => "Cert or key is none"@,
        ConfigError::CertInvalid => "Can not parse the certs pem."@,
        ConfigError::KeyInvalid => "Can not parse the key pem."@,
        ConfigError::RouteNotFound => "Can not find the route by route id!"@,
        ConfigError::DuplicatePort => "Duplicate listen port in the config!"@,
        ConfigError::DuplicateRouteId => "Duplicate route id in the config!"@,
        ConfigError::EmptyService => "The api service has no routes!"@,
        ConfigError::EmptyCluster => "The route cluster is empty!"@,
        ConfigError::OversizedCluster => "The route cluster is too large!"@,
        ConfigError::BadWeights => "The weights of the route cluster are invalid!"@,
    }
}

impl ConfigError {
    /// Renders the error for a response body or a log line.
    pub fn message(&self) -> (r: String)
        ensures
            r@ == spec_message(*self),
    {
        match self {
            ConfigError::CertOrKeyMissing => String::from_str("Cert or key is none"),
            ConfigError::CertInvalid => String::from_str("Can not parse the certs pem."),
            ConfigError::KeyInvalid => String::from_str("Can not parse the key pem."),
            ConfigError::RouteNotFound => String::from_str("Can not find the route by route id!"),
            ConfigError::DuplicatePort => String::from_str("Duplicate listen port in the config!"),
            ConfigError::DuplicateRouteId => String::from_str(
                "Duplicate route id in the config!",
            ),
            ConfigError::EmptyService => String::from_str("The api service has no routes!"),
            ConfigError::EmptyCluster => String::from_str("The route cluster is empty!"),
            ConfigError::OversizedCluster => String::from_str("The route cluster is too large!"),
            ConfigError::BadWeights => String::from_str(
                "The weights of the route cluster are invalid!",
            ),
        }
    }
}

} // verus!
