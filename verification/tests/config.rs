use iroh_common::config::{
    Config, ConfigSection, GatewayConfig, Libp2pConfig, MetricsConfig, P2pConfig,
    RpcClientConfig, StoreConfig, CONFIG_FILE_NAME, DEFAULT_PORT, ENV_PREFIX,
};

fn rpc(addr: &str) -> RpcClientConfig {
    RpcClientConfig {
        gateway_addr: Some(format!("{}/gateway", addr)),
        p2p_addr: Some(format!("{}/p2p", addr)),
        store_addr: None,
    }
}

fn metrics(name: &str) -> MetricsConfig {
    MetricsConfig { settings: vec![("service_name".to_string(), name.to_string())] }
}

fn sample() -> Config {
    let mut c = Config::new(
        GatewayConfig {
            port: 8080,
            headers: vec![("x-a".to_string(), "1".to_string())],
            rpc_client: rpc("grpc://gw"),
            metrics: metrics("gw"),
        },
        StoreConfig { path: "/data".to_string(), rpc_client: rpc("grpc://st"), metrics: metrics("st") },
        P2pConfig {
            libp2p: Libp2pConfig { settings: vec![("mdns".to_string(), "true".to_string())] },
            rpc_client: rpc("grpc://p2p"),
            metrics: metrics("p2p"),
        },
        rpc("grpc://top"),
        Some("https://ipfs.io".to_string()),
    );
    c.metrics = metrics("top");
    c
}

#[test]
fn constants() {
    assert_eq!(CONFIG_FILE_NAME, "one.config.toml");
    assert_eq!(ENV_PREFIX, "IROH_ONE");
    assert_eq!(DEFAULT_PORT, 9050);
}

#[test]
fn new_uses_default_metrics() {
    let c = Config::new(
        GatewayConfig::default(),
        StoreConfig { path: String::new(), rpc_client: rpc("a"), metrics: metrics("s") },
        P2pConfig { libp2p: Libp2pConfig::default(), rpc_client: rpc("b"), metrics: metrics("p") },
        rpc("c"),
        None,
    );
    assert_eq!(c.metrics, MetricsConfig::default());
    assert_eq!(c.rpc_client, rpc("c"));
    assert_eq!(c.store.rpc_client, rpc("a"));
    assert_eq!(c.resolver_gateway, None);
}

#[test]
fn ipfsd_rpc_has_no_addresses() {
    let r = Config::default_ipfsd();
    assert_eq!(r, RpcClientConfig { gateway_addr: None, p2p_addr: None, store_addr: None });
}

#[test]
fn default_config_shares_rpc_and_metrics_with_store_and_p2p() {
    let c = Config::default();
    assert_eq!(c.rpc_client, Config::default_ipfsd());
    assert_eq!(c.store.rpc_client, c.rpc_client);
    assert_eq!(c.p2p.rpc_client, c.rpc_client);
    assert_eq!(c.store.metrics, c.metrics);
    assert_eq!(c.p2p.metrics, c.metrics);
    assert_eq!(c.store.path, "");
    assert_eq!(c.gateway.port, DEFAULT_PORT);
    assert_eq!(c.resolver_gateway, None);
    assert_eq!(c.port(), DEFAULT_PORT);
}

#[test]
fn synchronize_copies_shared_settings_into_every_section() {
    let mut c = sample();
    c.synchronize_subconfigs();
    assert_eq!(c.gateway.rpc_client, rpc("grpc://top"));
    assert_eq!(c.store.rpc_client, rpc("grpc://top"));
    assert_eq!(c.p2p.rpc_client, rpc("grpc://top"));
    assert_eq!(c.gateway.metrics, metrics("top"));
    assert_eq!(c.store.metrics, metrics("top"));
    assert_eq!(c.p2p.metrics, metrics("top"));
    assert_eq!(c.gateway.port, 8080);
    assert_eq!(c.store.path, "/data");
    assert_eq!(c.p2p.libp2p.settings, vec![("mdns".to_string(), "true".to_string())]);
    assert_eq!(c.rpc_client, rpc("grpc://top"));
    assert_eq!(c.resolver_gateway, Some("https://ipfs.io".to_string()));
}

#[test]
fn synchronize_twice_is_synchronize_once() {
    let mut once = sample();
    once.synchronize_subconfigs();
    let mut twice = sample();
    twice.synchronize_subconfigs();
    twice.synchronize_subconfigs();
    assert_eq!(once, twice);
}

#[test]
fn getters_read_the_gateway_section() {
    let c = sample();
    assert_eq!(c.port(), 8080);
    assert_eq!(c.user_headers(), &vec![("x-a".to_string(), "1".to_string())]);
    assert_eq!(c.rpc_client(), &rpc("grpc://top"));
}

#[test]
fn collect_lists_sections_and_resolver() {
    let c = sample();
    let keys: Vec<&str> = c.collect().iter().map(|(k, _)| *k).collect();
    assert_eq!(keys, vec!["gateway", "store", "p2p", "rpc_client", "metrics", "resolver_gateway"]);
    match &c.collect()[5].1 {
        ConfigSection::Text(url) => assert_eq!(url.as_str(), "https://ipfs.io"),
        other => panic!("unexpected section {:?}", other),
    }
    match &c.collect()[0].1 {
        ConfigSection::Gateway(g) => assert_eq!(g.port, 8080),
        other => panic!("unexpected section {:?}", other),
    }
}

#[test]
fn collect_leaves_out_missing_resolver() {
    let c = Config::default();
    let keys: Vec<&str> = c.collect().iter().map(|(k, _)| *k).collect();
    assert_eq!(keys, vec!["gateway", "store", "p2p", "rpc_client", "metrics"]);
}
