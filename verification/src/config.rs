//! The configuration of a node that runs the gateway, the store and the
//! p2p service in one process: a section for each service, and the RPC and
//! metrics settings that they share.

use vstd::prelude::*;

verus! {

/// The name of the optional configuration file in the node's home directory.
pub const CONFIG_FILE_NAME: &'static str = "one.config.toml";

/// Put before a field's name, this names the environment variable that
/// sets the field (`IROH_ONE_PORT=1000` sets the port).
pub const ENV_PREFIX: &'static str = "IROH_ONE";

/// The port the gateway listens on unless told otherwise.
pub const DEFAULT_PORT: u16 = 9050;

/// Where the RPC client reaches the gateway, the p2p service and the store,
/// each address written as the configuration writes it; `None` where the
/// service is not reached over RPC.
#[derive(Debug, PartialEq, Eq)]
pub struct RpcClientConfig {
    pub gateway_addr: Option<String>,
    pub p2p_addr: Option<String>,
    pub store_addr: Option<String>,
}

fn copy_opt_string(s: &Option<String>) -> (r: Option<String>)
    ensures
        r == *s,
{
    match s {
        Some(s) => Some(s.clone()),
        None => None,
    }
}

/// A copy of key/value settings.
fn copy_settings(settings: &Vec<(String, String)>) -> (r: Vec<(String, String)>)
    ensures
        r@ == settings@,
{
    let mut r: Vec<(String, String)> = Vec::new();
    let mut i: usize = 0;
    while i < settings.len()
        invariant
            i <= settings@.len(),
            r@ == settings@.take(i as int),
        decreases settings@.len() - i,
    {
        let (k, v) = &settings[i];
        r.push((k.clone(), v.clone()));
        assert(r@ =~= settings@.take(i + 1));
        i = i + 1;
    }
    assert(settings@.take(settings@.len() as int) =~= settings@);
    r
}

impl Clone for RpcClientConfig {
    fn clone(&self) -> (r: Self)
        ensures
            r == *self,
    {
        RpcClientConfig {
            gateway_addr: copy_opt_string(&self.gateway_addr),
            p2p_addr: copy_opt_string(&self.p2p_addr),
            store_addr: copy_opt_string(&self.store_addr),
        }
    }
}

/// The metrics settings, as the key/value pairs that the configuration
/// layer collects.
#[derive(Debug, PartialEq, Eq)]
pub struct MetricsConfig {
    pub settings: Vec<(String, String)>,
}

impl Clone for MetricsConfig {
    fn clone(&self) -> (r: Self)
        ensures
            r.settings@ == self.settings@,
    {
        MetricsConfig { settings: copy_settings(&self.settings) }
    }
}

impl Default for MetricsConfig {
    fn default() -> (r: Self)
        ensures
            r.settings@ == Seq::<(String, String)>::empty(),
    {
        MetricsConfig { settings: Vec::new() }
    }
}

/// The settings of the p2p networking layer, as the key/value pairs that
/// the configuration layer collects.
#[derive(Debug, PartialEq, Eq)]
pub struct Libp2pConfig {
    pub settings: Vec<(String, String)>,
}

impl Clone for Libp2pConfig {
    fn clone(&self) -> (r: Self)
        ensures
            r.settings@ == self.settings@,
    {
        Libp2pConfig { settings: copy_settings(&self.settings) }
    }
}

impl Default for Libp2pConfig {
    fn default() -> (r: Self)
        ensures
            r.settings@ == Seq::<(String, String)>::empty(),
    {
        Libp2pConfig { settings: Vec::new() }
    }
}

/// The gateway's section: the port it listens on, the headers it adds to
/// every response (name and value), and its own copies of the shared RPC
/// and metrics settings.
#[derive(Debug, Clone, PartialEq, Eq)]
pub struct GatewayConfig {
    pub port: u16,
    pub headers: Vec<(String, String)>,
    pub rpc_client: RpcClientConfig,
    pub metrics: MetricsConfig,
}

impl Default for GatewayConfig {
    fn default() -> (r: Self)
        ensures
            r.port == DEFAULT_PORT,
            r.headers@ == Seq::<(String, String)>::empty(),
            r.rpc_client == default_rpc_client(),
            r.metrics.settings@ == Seq::<(String, String)>::empty(),
    {
        GatewayConfig {
            port: DEFAULT_PORT,
            headers: Vec::new(),
            rpc_client: Config::default_ipfsd(),
            metrics: MetricsConfig::default(),
        }
    }
}

/// The store's section: where it keeps its data, and its own copies of the
/// shared RPC and metrics settings.
#[derive(Debug, Clone, PartialEq, Eq)]
pub struct StoreConfig {
    pub path: String,
    pub rpc_client: RpcClientConfig,
    pub metrics: MetricsConfig,
}

/// The p2p service's section: its networking settings, and its own copies
/// of the shared RPC and metrics settings.
#[derive(Debug, Clone, PartialEq, Eq)]
pub struct P2pConfig {
    pub libp2p: Libp2pConfig,
    pub rpc_client: RpcClientConfig,
    pub metrics: MetricsConfig,
}

/// The configuration of the whole node: the URL of the gateway that the
/// racing resolver asks (if any), a section for each service, and the RPC
/// and metrics settings that the services share.
#[derive(Debug, Clone, PartialEq, Eq)]
pub struct Config {
    pub resolver_gateway: Option<String>,
    pub gateway: GatewayConfig,
    pub store: StoreConfig,
    pub p2p: P2pConfig,
    pub rpc_client: RpcClientConfig,
    pub metrics: MetricsConfig,
}

/// The RPC settings of a node whose services talk over in-memory channels:
/// no service is reached at an address.
pub open spec fn default_rpc_client() -> RpcClientConfig {
    RpcClientConfig { gateway_addr: None, p2p_addr: None, store_addr: None }
}

/// Every service's section holds the node's RPC and metrics settings.
pub open spec fn synchronized(c: Config) -> bool {
    &&& c.gateway.rpc_client == c.rpc_client
    &&& c.store.rpc_client == c.rpc_client
    &&& c.p2p.rpc_client == c.rpc_client
    &&& c.gateway.metrics.settings@ == c.metrics.settings@
    &&& c.store.metrics.settings@ == c.metrics.settings@
    &&& c.p2p.metrics.settings@ == c.metrics.settings@
}

/// The store's section of a node with these RPC and metrics settings.
fn default_store_config(ipfsd: RpcClientConfig, metrics: MetricsConfig) -> (r: StoreConfig)
    ensures
        r.path@ == Seq::<char>::empty(),
        r.rpc_client == ipfsd,
        r.metrics == metrics,
{
    StoreConfig { path: String::new(), rpc_client: ipfsd, metrics }
}

/// The p2p service's section of a node with these RPC and metrics settings.
fn default_p2p_config(ipfsd: RpcClientConfig, metrics: MetricsConfig) -> (r: P2pConfig)
    ensures
        r.libp2p.settings@ == Seq::<(String, String)>::empty(),
        r.rpc_client == ipfsd,
        r.metrics == metrics,
{
    P2pConfig { libp2p: Libp2pConfig::default(), rpc_client: ipfsd, metrics }
}

/// A part of the configuration, as the configuration layer collects it
/// under a key.
#[derive(Debug)]
pub enum ConfigSection<'a> {
    Gateway(&'a GatewayConfig),
    Store(&'a StoreConfig),
    P2p(&'a P2pConfig),
    RpcClient(&'a RpcClientConfig),
    Metrics(&'a MetricsConfig),
    Text(&'a String),
}

impl Config {
    /// A node configuration from the sections of its services, its shared
    /// RPC settings and its resolver gateway; its metrics settings are the
    /// default ones.
    pub fn new(
        gateway: GatewayConfig,
        store: StoreConfig,
        p2p: P2pConfig,
        rpc_client: RpcClientConfig,
        resolver_gateway: Option<String>,
    ) -> (c: Self)
        ensures
            c.gateway == gateway,
            c.store == store,
            c.p2p == p2p,
            c.rpc_client == rpc_client,
            c.resolver_gateway == resolver_gateway,
            c.metrics.settings@ == Seq::<(String, String)>::empty(),
    {
        Config {
            gateway,
            store,
            p2p,
            rpc_client,
            metrics: MetricsConfig::default(),
            resolver_gateway,
        }
    }

    /// The RPC settings of a node whose services talk to each other over
    /// in-memory channels, so that no service has an address.
    pub fn default_ipfsd() -> (r: RpcClientConfig)
        ensures
            r == default_rpc_client(),
    {
        RpcClientConfig { gateway_addr: None, p2p_addr: None, store_addr: None }
    }

    /// Copies the node's RPC and metrics settings into the section of every
    /// service; nothing else changes.
    pub fn synchronize_subconfigs(&mut self)
        ensures
            synchronized(*final(self)),
            final(self).gateway.rpc_client == old(self).rpc_client,
            final(self).store.rpc_client == old(self).rpc_client,
            final(self).p2p.rpc_client == old(self).rpc_client,
            final(self).gateway.metrics.settings@ == old(self).metrics.settings@,
            final(self).store.metrics.settings@ == old(self).metrics.settings@,
            final(self).p2p.metrics.settings@ == old(self).metrics.settings@,
            final(self).rpc_client == old(self).rpc_client,
            final(self).metrics == old(self).metrics,
            final(self).resolver_gateway == old(self).resolver_gateway,
            final(self).gateway.port == old(self).gateway.port,
            final(self).gateway.headers == old(self).gateway.headers,
            final(self).store.path == old(self).store.path,
            final(self).p2p.libp2p == old(self).p2p.libp2p,
    {
        self.gateway.rpc_client = self.rpc_client.clone();
        self.p2p.rpc_client = self.rpc_client.clone();
        self.store.rpc_client = self.rpc_client.clone();
        self.gateway.metrics = self.metrics.clone();
        self.p2p.metrics = self.metrics.clone();
        self.store.metrics = self.metrics.clone();
    }

    /// The parts of the configuration under the keys the configuration
    /// layer reads them from, in this order: `gateway`, `store`, `p2p`,
    /// `rpc_client`, `metrics`, and then `resolver_gateway` when there is
    /// a resolver gateway.
    pub fn collect(&self) -> (r: Vec<(&'static str, ConfigSection<'_>)>)
        ensures
            r@.len() == if self.resolver_gateway is Some { 6int } else { 5int },
            r@[0].0@ == "gateway"@ && r@[0].1 == ConfigSection::Gateway(&self.gateway),
            r@[1].0@ == "store"@ && r@[1].1 == ConfigSection::Store(&self.store),
            r@[2].0@ == "p2p"@ && r@[2].1 == ConfigSection::P2p(&self.p2p),
            r@[3].0@ == "rpc_client"@ && r@[3].1 == ConfigSection::RpcClient(&self.rpc_client),
            r@[4].0@ == "metrics"@ && r@[4].1 == ConfigSection::Metrics(&self.metrics),
            self.resolver_gateway matches Some(url) ==> r@[5].0@ == "resolver_gateway"@
                && r@[5].1 == ConfigSection::Text(&url),
    {
        let mut map: Vec<(&'static str, ConfigSection<'_>)> = Vec::new();
        map.push(("gateway", ConfigSection::Gateway(&self.gateway)));
        map.push(("store", ConfigSection::Store(&self.store)));
        map.push(("p2p", ConfigSection::P2p(&self.p2p)));
        map.push(("rpc_client", ConfigSection::RpcClient(&self.rpc_client)));
        map.push(("metrics", ConfigSection::Metrics(&self.metrics)));
        if let Some(resolver_gateway) = &self.resolver_gateway {
            map.push(("resolver_gateway", ConfigSection::Text(resolver_gateway)));
        }
        map
    }

    /// The RPC settings the services are reached with.
    pub fn rpc_client(&self) -> (r: &RpcClientConfig)
        ensures
            *r == self.rpc_client,
    {
        &self.rpc_client
    }

    /// The port the gateway listens on.
    pub fn port(&self) -> (r: u16)
        ensures
            r == self.gateway.port,
    {
        self.gateway.port
    }

    /// The headers the gateway adds to every response.
    pub fn user_headers(&self) -> (r: &Vec<(String, String)>)
        ensures
            *r == self.gateway.headers,
    {
        &self.gateway.headers
    }
}

impl Default for Config {
    /// The configuration of a node whose services talk over in-memory
    /// channels: the default gateway section, an unnamed store path, the
    /// default networking settings, and the same RPC and metrics settings
    /// for the store and the p2p service as for the node.
    fn default() -> (c: Self)
        ensures
            c.rpc_client == default_rpc_client(),
            c.metrics.settings@ == Seq::<(String, String)>::empty(),
            c.resolver_gateway is None,
            c.gateway.port == DEFAULT_PORT,
            c.gateway.headers@ == Seq::<(String, String)>::empty(),
            c.gateway.rpc_client == default_rpc_client(),
            c.gateway.metrics.settings@ == Seq::<(String, String)>::empty(),
            c.store.path@ == Seq::<char>::empty(),
            c.store.rpc_client == c.rpc_client,
            c.store.metrics.settings@ == c.metrics.settings@,
            c.p2p.libp2p.settings@ == Seq::<(String, String)>::empty(),
            c.p2p.rpc_client == c.rpc_client,
            c.p2p.metrics.settings@ == c.metrics.settings@,
    {
        let ipfsd = Self::default_ipfsd();
        let metrics_config = MetricsConfig::default();
        Config {
            rpc_client: ipfsd.clone(),
            metrics: metrics_config.clone(),
            gateway: GatewayConfig::default(),
            store: default_store_config(ipfsd.clone(), metrics_config.clone()),
            p2p: default_p2p_config(ipfsd, metrics_config),
            resolver_gateway: None,
        }
    }
}

} // verus!
