use oracle_node::config::{split_peer_list, Config, ConfigError, EnvValues, P2PConfig};

fn full_env() -> EnvValues {
    EnvValues {
        redis_url: Some("redis://10.0.0.5:6379".to_owned()),
        apibara_api_key: Some("SECRET-REDACTED".to_owned()),
        contract_address: Some("0xabc".to_owned()),
        server_host: Some("127.0.0.1".to_owned()),
        server_port: Some("8080".to_owned()),
        starting_block: Some("123456".to_owned()),
        private_key: Some("0x01".to_owned()),
        p2p_listen_addr: Some("/ip4/0.0.0.0/tcp/7000".to_owned()),
        p2p_bootstrap_peers: Some("/ip4/1.2.3.4/tcp/7000,,/ip4/5.6.7.8/tcp/7000,".to_owned()),
    }
}

fn empty_env() -> EnvValues {
    EnvValues {
        redis_url: None,
        apibara_api_key: Some("key".to_owned()),
        contract_address: None,
        server_host: None,
        server_port: None,
        starting_block: None,
        private_key: Some("0x01".to_owned()),
        p2p_listen_addr: None,
        p2p_bootstrap_peers: None,
    }
}

#[test]
fn explicit_values_are_taken_as_given() {
    let config = Config::new(&full_env()).unwrap();
    assert_eq!(config.redis_url, "redis://10.0.0.5:6379");
    assert_eq!(config.apibara_api_key, "SECRET-REDACTED");
    assert_eq!(config.contract_address, "0xabc");
    assert_eq!(config.server_host, "127.0.0.1");
    assert_eq!(config.server_port, 8080);
    assert_eq!(config.starting_block, 123456);
    assert_eq!(config.private_key, "0x01");
    assert_eq!(config.p2p.listen_address, "/ip4/0.0.0.0/tcp/7000");
    assert_eq!(
        config.p2p.bootstrap_peers,
        vec!["/ip4/1.2.3.4/tcp/7000".to_owned(), "/ip4/5.6.7.8/tcp/7000".to_owned()]
    );
}

#[test]
fn missing_optional_values_fall_back_to_defaults() {
    let config = Config::new(&empty_env()).unwrap();
    assert_eq!(config.redis_url, "redis://127.0.0.1:6379");
    assert_eq!(
        config.contract_address,
        "0x36031daa264c24520b11d93af622c848b2499b66b41d611bac95e13cfca131a"
    );
    assert_eq!(config.server_host, "0.0.0.0");
    assert_eq!(config.server_port, 3000);
    assert_eq!(config.starting_block, 0);
    assert_eq!(config.p2p.listen_address, "/ip4/0.0.0.0/tcp/61234");
    assert!(config.p2p.bootstrap_peers.is_empty());
}

#[test]
fn missing_required_values_are_fatal() {
    let mut env = empty_env();
    env.apibara_api_key = None;
    assert_eq!(Config::new(&env).unwrap_err(), ConfigError::MissingApiKey);
    let mut env = empty_env();
    env.private_key = None;
    assert_eq!(Config::new(&env).unwrap_err(), ConfigError::MissingPrivateKey);
}

#[test]
fn malformed_numbers_are_fatal() {
    let mut env = empty_env();
    env.server_port = Some("seventy".to_owned());
    assert_eq!(Config::new(&env).unwrap_err(), ConfigError::InvalidServerPort);
    let mut env = empty_env();
    env.server_port = Some("65536".to_owned());
    assert_eq!(Config::new(&env).unwrap_err(), ConfigError::InvalidServerPort);
    let mut env = empty_env();
    env.starting_block = Some("-3".to_owned());
    assert_eq!(Config::new(&env).unwrap_err(), ConfigError::InvalidStartingBlock);
}

#[test]
fn peer_lists_drop_empty_entries() {
    assert_eq!(split_peer_list(""), Vec::<String>::new());
    assert_eq!(split_peer_list(",,,"), Vec::<String>::new());
    assert_eq!(split_peer_list("a"), vec!["a".to_owned()]);
    assert_eq!(split_peer_list(",a,,b,"), vec!["a".to_owned(), "b".to_owned()]);
}

#[test]
fn p2p_defaults_apply() {
    let p2p = P2PConfig::new(&None, &None);
    assert_eq!(p2p.listen_address, "/ip4/0.0.0.0/tcp/61234");
    assert!(p2p.bootstrap_peers.is_empty());
}
