//! Turning Gateway API resources into a service configuration.
use vstd::prelude::*;
use crate::keyed::KeyedVec;
use crate::text::{decimal, owned, u64_text};

pub mod gather;
pub mod http;
pub mod tcp;
use http::{HTTPRoute, HttpConfig, HttpConfigView, http_config_view};
use tcp::match_parent::ParentRef;
use tcp::outbound::{Outbound, OutboundView};

verus! {

/// A Kubernetes object named by namespace (the client's default when absent) and name.
#[derive(Debug)]
pub struct K8sResource {
    pub namespace: Option<String>,
    pub name: String,
}

impl K8sResource {
    pub fn new(namespace: Option<String>, name: String) -> (r: Self)
        ensures
            r.namespace == namespace,
            r.name == name,
    {
        K8sResource { namespace, name }
    }
}

/// Where the resolver looks for routes.
#[derive(Debug)]
pub struct K8sServiceBuildConfig {
    pub gateway_namespace: String,
}

impl Default for K8sServiceBuildConfig {
    /// Routes in the `default` namespace.
    fn default() -> (c: Self)
        ensures
            c.gateway_namespace@ == "default"@,
    {
        K8sServiceBuildConfig { gateway_namespace: owned("default") }
    }
}

/// `name`, then `.namespace` when given, then `.port<port>` when given.
pub open spec fn target_name_text(name: Seq<char>, namespace: Option<Seq<char>>, port: Option<u16>) -> Seq<char> {
    let with_ns = match namespace {
        Some(ns) => name + seq!['.'] + ns,
        None => name,
    };
    match port {
        Some(p) => with_ns + seq!['.', 'p', 'o', 'r', 't'] + decimal(p as nat),
        None => with_ns,
    }
}

/// The name under which a backend service is referred to.
pub fn target_name(name: &str, namespace: Option<&str>, port: Option<u16>) -> (r: String)
    ensures
        r@ == target_name_text(name@, match namespace { Some(n) => Some(n@), None => None }, port),
{
    let mut r = owned(name);
    match namespace {
        Some(ns) => {
            r.append(".");
            r.append(ns);
            proof { reveal_strlit("."); }
        },
        None => {},
    }
    match port {
        Some(p) => {
            r.append(".port");
            let digits = u64_text(p as u64);
            r.append(digits.as_str());
            proof { reveal_strlit(".port"); }
        },
        None => {},
    }
    proof {
        reveal_strlit(".");
        reveal_strlit(".port");
        assert("."@ =~= seq!['.']);
        assert(".port"@ =~= seq!['.', 'p', 'o', 'r', 't']);
        match namespace {
            Some(n) => match port {
                Some(p) => assert(r@ =~= target_name_text(name@, Some(n@), port)),
                None => assert(r@ =~= target_name_text(name@, Some(n@), port)),
            },
            None => match port {
                Some(p) => assert(r@ =~= target_name_text(name@, None, port)),
                None => assert(r@ =~= target_name_text(name@, None, port)),
            },
        }
    }
    r
}

/// A backend a route forwards to.
#[derive(Debug)]
pub struct BackendRef {
    pub name: String,
    pub namespace: Option<String>,
    pub port: Option<i32>,
    pub weight: Option<i32>,
}

/// A rule of a TCP or TLS route: the backends it forwards to.
#[derive(Debug)]
pub struct RouteRule {
    pub backend_refs: Vec<BackendRef>,
}

/// A TCPRoute: the listeners it attaches to and its rules.
#[derive(Debug)]
pub struct TCPRoute {
    pub parent_refs: Option<Vec<ParentRef>>,
    pub rules: Vec<RouteRule>,
}

/// A TLSRoute: the listeners it attaches to, the server names it serves and its rules.
#[derive(Debug)]
pub struct TLSRoute {
    pub parent_refs: Option<Vec<ParentRef>>,
    pub hostnames: Vec<String>,
    pub rules: Vec<RouteRule>,
}

/// The backends of a list of rules, rule by rule.
pub open spec fn rule_backends(rules: Seq<RouteRule>) -> Seq<BackendRef>
    decreases rules.len(),
{
    if rules.len() == 0 {
        Seq::empty()
    } else {
        rule_backends(rules.drop_last()) + rules.last().backend_refs@
    }
}

/// How a TLS listener treats connections.
#[derive(Debug)]
pub enum GatewayListenersTlsMode {
    Terminate,
    Passthrough,
}

/// A reference to the secret holding a listener's certificate.
#[derive(Debug)]
pub struct CertificateRef {
    pub name: String,
    pub namespace: Option<String>,
}

/// The TLS settings of a listener.
#[derive(Debug)]
pub struct GatewayListenerTls {
    pub mode: Option<GatewayListenersTlsMode>,
    pub certificate_refs: Option<Vec<CertificateRef>>,
}

/// A listener of a gateway.
#[derive(Debug)]
pub struct GatewayListener {
    pub name: String,
    pub port: i32,
    pub protocol: String,
    pub tls: Option<GatewayListenerTls>,
}

/// A gateway: its name and listeners.
#[derive(Debug)]
pub struct Gateway {
    pub name: String,
    pub listeners: Vec<GatewayListener>,
}

/// A gateway with the routes attached to it, each kind keyed by route name.
pub struct K8sGatewayGatewayData {
    pub gateway: Gateway,
    pub http_routes: KeyedVec<String, HTTPRoute>,
    pub tcp_routes: KeyedVec<String, TCPRoute>,
    pub tls_routes: KeyedVec<String, TLSRoute>,
}

/// The balancing strategy of a TCP service.
#[derive(Debug)]
pub enum BalancerStrategyConfig {
    RoundRobin,
}

/// What a TLS listener does with a connection: pick an upstream by server name and pass the
/// bytes through, or terminate TLS and forward to an upstream.
pub enum TlsStrategyConfig {
    Passthrough(KeyedVec<String, Outbound>),
    Terminate(Outbound),
}

/// The configuration of the `tcp` service provider.
pub struct TcpConfig {
    pub strategy_config: TlsStrategyConfig,
    pub balancer: BalancerStrategyConfig,
}

/// The configuration carried by a service.
pub enum ServiceConfigValue {
    Tcp(TcpConfig),
    Http(HttpConfig),
}

/// A service run by a provider.
pub struct TcpServiceConfig {
    pub provider: String,
    pub name: String,
    pub config: Option<ServiceConfigValue>,
    pub description: Option<String>,
}

/// A listening socket on all interfaces at `bind` (a port).
#[derive(Debug)]
pub struct Listener {
    pub bind: u16,
    pub description: Option<String>,
}

/// Which service serves the connections of a listener, and with which TLS certificate.
#[derive(Debug)]
pub struct TcpRoute {
    pub bind: u16,
    pub service: String,
    pub tls: Option<String>,
}

/// TLS options; the defaults are used throughout.
#[derive(Debug)]
pub struct TlsOptions {}

/// A TLS certificate, named by where it is to be found.
#[derive(Debug)]
pub struct Tls {
    pub resolver: K8sResource,
    pub options: TlsOptions,
}

/// A service configuration whose certificates are still Kubernetes secrets to fetch.
pub struct ServiceConfig {
    pub tcp_services: KeyedVec<String, TcpServiceConfig>,
    pub tcp_listeners: KeyedVec<u16, Listener>,
    pub tcp_routes: KeyedVec<u16, TcpRoute>,
    pub tls: KeyedVec<String, Tls>,
}

impl ServiceConfig {
    /// An empty configuration.
    pub fn new() -> (c: Self)
        ensures
            c.tcp_services.map() == Map::<Seq<char>, TcpServiceConfig>::empty(),
            c.tcp_listeners.map() == Map::<u16, Listener>::empty(),
            c.tcp_routes.map() == Map::<u16, TcpRoute>::empty(),
            c.tls.map() == Map::<Seq<char>, Tls>::empty(),
    {
        ServiceConfig {
            tcp_services: KeyedVec::new(),
            tcp_listeners: KeyedVec::new(),
            tcp_routes: KeyedVec::new(),
            tls: KeyedVec::new(),
        }
    }
}

/// The value of a TCP configuration.
pub enum TcpConfigView {
    Passthrough(Map<Seq<char>, OutboundView>),
    Terminate(OutboundView),
}

/// The value of a service's configuration.
pub enum ConfigView {
    Tcp(TcpConfigView),
    Http(HttpConfigView),
}

/// The outbounds of a server-name map, by value.
pub open spec fn outbound_map_view(m: Map<Seq<char>, Outbound>) -> Map<Seq<char>, OutboundView> {
    m.map_values(|o: Outbound| o@)
}

pub open spec fn config_view(c: ServiceConfigValue) -> ConfigView {
    match c {
        ServiceConfigValue::Tcp(t) => ConfigView::Tcp(match t.strategy_config {
            TlsStrategyConfig::Passthrough(m) => TcpConfigView::Passthrough(outbound_map_view(m.map())),
            TlsStrategyConfig::Terminate(o) => TcpConfigView::Terminate(o@),
        }),
        ServiceConfigValue::Http(h) => ConfigView::Http(http_config_view(h)),
    }
}

/// The value of a service: provider, name, configuration, description.
pub type ServiceView = (Seq<char>, Seq<char>, Option<ConfigView>, Option<Seq<char>>);

pub open spec fn opt_text(o: Option<String>) -> Option<Seq<char>> {
    match o { Some(s) => Some(s@), None => None }
}

pub open spec fn service_view(s: TcpServiceConfig) -> ServiceView {
    (s.provider@, s.name@, match s.config { Some(c) => Some(config_view(c)), None => None }, opt_text(s.description))
}

/// The value of a listener: port and description.
pub open spec fn listener_view(l: Listener) -> (u16, Option<Seq<char>>) {
    (l.bind, opt_text(l.description))
}

/// The value of a route: port, service, certificate name.
pub open spec fn route_view(r: TcpRoute) -> (u16, Seq<char>, Option<Seq<char>>) {
    (r.bind, r.service@, opt_text(r.tls))
}

/// The value of a certificate entry: the secret's namespace and name.
pub open spec fn tls_view(t: Tls) -> (Option<Seq<char>>, Seq<char>) {
    (opt_text(t.resolver.namespace), t.resolver.name@)
}

/// The value of a whole service configuration, map by map.
pub struct ServiceConfigView {
    pub services: Map<Seq<char>, ServiceView>,
    pub listeners: Map<u16, (u16, Option<Seq<char>>)>,
    pub routes: Map<u16, (u16, Seq<char>, Option<Seq<char>>)>,
    pub tls: Map<Seq<char>, (Option<Seq<char>>, Seq<char>)>,
}

pub open spec fn service_config_view(c: ServiceConfig) -> ServiceConfigView {
    ServiceConfigView {
        services: c.tcp_services.map().map_values(|s: TcpServiceConfig| service_view(s)),
        listeners: c.tcp_listeners.map().map_values(|l: Listener| listener_view(l)),
        routes: c.tcp_routes.map().map_values(|r: TcpRoute| route_view(r)),
        tls: c.tls.map().map_values(|t: Tls| tls_view(t)),
    }
}

/// Some listener of `ls` is served by the HTTP service.
pub open spec fn has_http_listener(ls: Seq<GatewayListener>) -> bool {
    exists|i: int| 0 <= i < ls.len() && http::is_http_listener(#[trigger] ls[i])
}

/// The configuration after one gateway: its HTTP service (when it has HTTP listeners), then
/// its TCP services.
pub open spec fn gateway_services_step(c: ServiceConfigView, g: K8sGatewayGatewayData) -> ServiceConfigView {
    let c1 = if has_http_listener(g.gateway.listeners@) { http::with_http_service(c, g) } else { c };
    tcp::tcp_services_fold(c1, g.gateway.name@, g.tcp_routes.seq(), g.tls_routes.seq(), g.gateway.listeners@).0
}

/// The configuration after the gateways `gs`, in order.
pub open spec fn gateways_services_fold(c: ServiceConfigView, gs: Seq<(String, K8sGatewayGatewayData)>) -> ServiceConfigView
    decreases gs.len(),
{
    if gs.len() == 0 {
        c
    } else {
        gateway_services_step(gateways_services_fold(c, gs.drop_last()), gs.last().1)
    }
}

impl tcp::ServiceBuilder {
    /// Adds the services of each gateway, in the order of `gateways`: its HTTP service, then
    /// its TCP services.
    pub fn build_gateway_services(&mut self, gateways: &KeyedVec<String, K8sGatewayGatewayData>)
        ensures
            service_config_view(final(self).config) == gateways_services_fold(service_config_view(old(self).config), gateways.seq()),
    {
        let entries = gateways.entries();
        let ghost c0 = service_config_view(self.config);
        let mut i: usize = 0;
        while i < entries.len()
            invariant
                i <= entries@.len(),
                entries@ == gateways.seq(),
                service_config_view(self.config) == gateways_services_fold(c0, entries@.take(i as int)),
            decreases entries@.len() - i,
        {
            let g = &entries[i].1;
            proof {
                let t = entries@.take(i + 1);
                assert(t.drop_last() =~= entries@.take(i as int));
                assert(t.last() == entries@[i as int]);
            }
            let _ = self.build_http_service(g);
            let _ = self.build_tcp_services(g);
            i = i + 1;
        }
        assert(entries@.take(entries@.len() as int) =~= entries@);
    }
}

/// A backend service is referred to as `<name>`, followed by `.<namespace>` when it has one
/// and by `.port<port>` when it has a port.
pub proof fn lemma_target_names(name: Seq<char>, ns: Seq<char>, port: u16)
    ensures
        target_name_text(name, None, None) == name,
        target_name_text(name, Some(ns), None) == name + "."@ + ns,
        target_name_text(name, None, Some(port)) == name + ".port"@ + decimal(port as nat),
        target_name_text(name, Some(ns), Some(port)) == name + "."@ + ns + ".port"@ + decimal(port as nat),
{
    reveal_strlit(".");
    reveal_strlit(".port");
    assert("."@ =~= seq!['.']);
    assert(".port"@ =~= seq!['.', 'p', 'o', 'r', 't']);
}

} // verus!
