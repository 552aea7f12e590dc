use observatory::config::{ChainConfig, ConfigError, ObservatoryConfig};
use observatory::ident::{ChainId, ValidatorId};

#[test]
fn empty_chain_list_is_fatal() {
    let config = ObservatoryConfig {
        chains: vec![],
        datadog: None,
    };
    match config.validate() {
        Err(ConfigError::NoChainsConfigured) => {},
        Ok(()) => panic!("an empty chain list must be rejected"),
    }
}

#[test]
fn nonempty_chain_list_is_accepted() {
    let config = ObservatoryConfig {
        chains: vec![ChainConfig {
            id: ChainId::new(b"test-1".to_vec()),
            validator_addr: ValidatorId::new(vec![42; 20]),
            rpc_urls: vec!["https://rpc.example/".to_string()],
        }],
        datadog: None,
    };
    assert!(config.validate().is_ok());
}
