//! Read-only configuration handed to the monitoring components.
//!
//! Configuration is injected by the caller that loaded it; nothing here
//! performs any ambient lookup. Validation distinguishes fatal
//! misconfiguration from everything the monitors recover from on their own.

use vstd::prelude::*;

use crate::ident::{ChainId, ValidatorId};

verus! {

/// Configuration of one monitored chain.
pub struct ChainConfig {
    /// Chain ID.
    pub id: ChainId,
    /// Address of the monitored validator.
    pub validator_addr: ValidatorId,
    /// RPC URLs of the chain's endpoints.
    pub rpc_urls: Vec<String>,
}

/// Configuration of the external alert-delivery service.
pub struct DataDogConfig {
    /// API key for the delivery service, if alerts are to be delivered.
    pub dd_api_key: Option<String>,
}

/// Top-level configuration: the monitored chains, and optionally the
/// alert-delivery credentials.
pub struct ObservatoryConfig {
    /// Chain configurations.
    pub chains: Vec<ChainConfig>,
    /// Alert-delivery configuration.
    pub datadog: Option<DataDogConfig>,
}

/// A fatal configuration error: unrecoverable misconfiguration that must
/// terminate startup rather than be silently tolerated.
#[derive(Debug)]
pub enum ConfigError {
    /// The configured chain list is empty.
    NoChainsConfigured,
}

impl ObservatoryConfig {
    /// Check the configuration at startup. An empty chain list is fatal;
    /// anything else is accepted.
    pub fn validate(&self) -> (r: Result<(), ConfigError>)
        ensures
            r is Ok <==> self.chains@.len() > 0,
            r is Err ==> r matches Err(ConfigError::NoChainsConfigured),
    {
        if self.chains.len() == 0 {
            Err(ConfigError::NoChainsConfigured)
        } else {
            Ok(())
        }
    }
}

} // verus!
