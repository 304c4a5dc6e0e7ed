//! Settings of the verification service.

use vstd::prelude::*;

verus! {

/// Where the server listens.
#[derive(Clone, Debug, PartialEq, Eq)]
pub struct ServerConfiguration {
    /// An address and a port, as in `0.0.0.0:8043`.
    pub addr: String,
}

impl Default for ServerConfiguration {
    /// The server listens on every address, at port 8043.
    fn default() -> (config: Self)
        ensures
            config.addr@ == "0.0.0.0:8043"@,
    {
        Self { addr: "0.0.0.0:8043".to_owned() }
    }
}

/// Whether the built-in verifier is switched on.
#[derive(Clone, Debug, PartialEq, Eq)]
pub struct VerifierConfiguration {
    pub enabled: bool,
}

impl Default for VerifierConfiguration {
    /// The verifier is on unless a configuration switches it off.
    fn default() -> (config: Self)
        ensures
            config.enabled,
    {
        Self { enabled: true }
    }
}

/// How verification through Sourcify is done.
#[derive(Clone, Debug, PartialEq, Eq)]
pub struct SourcifyConfiguration {
    pub enabled: bool,
    /// The address of the Sourcify API.
    pub api_url: String,
    /// The number of attempts that the server makes to reach the API; at
    /// least one.
    pub verification_attempts: usize,
    /// The number of seconds after which a request is given up.
    pub request_timeout: u64,
}

impl SourcifyConfiguration {
    /// At least one attempt is made.
    pub open spec fn wf(self) -> bool {
        self.verification_attempts >= 1
    }
}

impl Default for SourcifyConfiguration {
    /// Sourcify is on, reached at its public address, tried three times,
    /// with ten seconds for a request.
    fn default() -> (config: Self)
        ensures
            config.wf(),
            config.enabled,
            config.api_url@ == "https://sourcify.dev/server/"@,
            config.verification_attempts == 3,
            config.request_timeout == 10,
    {
        Self {
            enabled: true,
            api_url: "https://sourcify.dev/server/".to_owned(),
            verification_attempts: 3,
            request_timeout: 10,
        }
    }
}

/// The settings of the service.
#[derive(Clone, Debug, PartialEq, Eq)]
pub struct Config {
    pub server: ServerConfiguration,
    pub verifier: VerifierConfiguration,
    pub sourcify: SourcifyConfiguration,
}

impl Default for Config {
    /// Every part of the settings is as it is where nothing is configured.
    fn default() -> (config: Self)
        ensures
            config.server.addr@ == "0.0.0.0:8043"@,
            config.verifier.enabled,
            config.sourcify.wf(),
            config.sourcify.enabled,
            config.sourcify.api_url@ == "https://sourcify.dev/server/"@,
            config.sourcify.verification_attempts == 3,
            config.sourcify.request_timeout == 10,
    {
        Self {
            server: ServerConfiguration::default(),
            verifier: VerifierConfiguration::default(),
            sourcify: SourcifyConfiguration::default(),
        }
    }
}

} // verus!
