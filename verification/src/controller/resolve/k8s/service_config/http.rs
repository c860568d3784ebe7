//! HTTP listeners of a gateway: the router, its rules, filters and backends.
use vstd::prelude::*;
use crate::keyed::KeyedVec;
use crate::text::{concat2, concat4, decimal, owned, same_text, u64_text};
use crate::controller::resolve::k8s::service_config::{
    ConfigView, GatewayListener, ServiceConfig, K8sGatewayGatewayData, K8sResource, Listener, ServiceConfigValue, ServiceConfigView,
    TcpRoute, TcpServiceConfig, Tls, TlsOptions, opt_text, service_config_view,
};
use crate::controller::resolve::k8s::service_config::tcp::ServiceBuilder;

pub mod backend;
pub mod filter;
pub mod route;
pub mod rule_match;
use rule_match::{RuleMatch, RegexOrExact, regex_or_exact_view};
use route::{RouterBuildView, build_state, route_step};

verus! {

/// How a request path is matched.
#[derive(Debug)]
pub enum HTTPRouteRulesMatchesPathType {
    Exact,
    PathPrefix,
    RegularExpression,
}

/// The path part of a match.
#[derive(Debug)]
pub struct HTTPRouteRulesMatchesPath {
    pub kind: Option<HTTPRouteRulesMatchesPathType>,
    pub value: Option<String>,
}

/// How a header or query value is compared.
#[derive(Debug)]
pub enum HTTPRouteRulesMatchesValueType {
    Exact,
    RegularExpression,
}

/// A header that a request must carry.
#[derive(Debug)]
pub struct HTTPRouteRulesMatchesHeaders {
    pub name: String,
    pub kind: Option<HTTPRouteRulesMatchesValueType>,
    pub value: String,
}

/// A query parameter that a request must carry.
#[derive(Debug)]
pub struct HTTPRouteRulesMatchesQueryParams {
    pub name: String,
    pub kind: Option<HTTPRouteRulesMatchesValueType>,
    pub value: String,
}

/// The request methods a match may name.
#[derive(Debug)]
pub enum HTTPRouteRulesMatchesMethod {
    Get,
    Head,
    Post,
    Put,
    Delete,
    Connect,
    Options,
    Trace,
    Patch,
}

/// One match of a rule.
#[derive(Debug)]
pub struct HTTPRouteRulesMatches {
    pub path: Option<HTTPRouteRulesMatchesPath>,
    pub headers: Option<Vec<HTTPRouteRulesMatchesHeaders>>,
    pub query_params: Option<Vec<HTTPRouteRulesMatchesQueryParams>>,
    pub method: Option<HTTPRouteRulesMatchesMethod>,
}

/// The kinds of filter.
#[derive(Debug)]
pub enum HTTPRouteFilterType {
    RequestHeaderModifier,
    ResponseHeaderModifier,
    RequestMirror,
    RequestRedirect,
    UrlRewrite,
    ExtensionRef,
}

/// A header name and value.
#[derive(Debug)]
pub struct HTTPHeader {
    pub name: String,
    pub value: String,
}

/// Headers to add, set and remove.
#[derive(Debug)]
pub struct HTTPHeaderModifier {
    pub add: Option<Vec<HTTPHeader>>,
    pub set: Option<Vec<HTTPHeader>>,
    pub remove: Option<Vec<String>>,
}

/// The service that mirrored requests go to.
#[derive(Debug)]
pub struct MirrorBackendRef {
    pub name: String,
    pub namespace: Option<String>,
    pub port: Option<i32>,
}

/// The share of requests mirrored, as a fraction.
#[derive(Debug)]
pub struct MirrorFraction {
    pub numerator: i32,
    pub denominator: Option<i32>,
}

/// Mirroring of requests.
#[derive(Debug)]
pub struct HTTPRequestMirror {
    pub backend_ref: MirrorBackendRef,
    pub fraction: Option<MirrorFraction>,
    pub percent: Option<i32>,
}

/// How a path is rewritten.
#[derive(Debug)]
pub enum HTTPPathModifierType {
    ReplaceFullPath,
    ReplacePrefixMatch,
}

/// A path rewrite.
#[derive(Debug)]
pub struct HTTPPathModifier {
    pub kind: HTTPPathModifierType,
    pub replace_full_path: Option<String>,
    pub replace_prefix_match: Option<String>,
}

/// Redirect schemes.
#[derive(Debug)]
pub enum HTTPRedirectScheme {
    Http,
    Https,
}

/// A redirect answer.
#[derive(Debug)]
pub struct HTTPRequestRedirect {
    pub status_code: Option<i64>,
    pub scheme: Option<HTTPRedirectScheme>,
    pub path: Option<HTTPPathModifier>,
    pub hostname: Option<String>,
}

/// A URL rewrite.
#[derive(Debug)]
pub struct HTTPURLRewrite {
    pub path: Option<HTTPPathModifier>,
    pub hostname: Option<String>,
}

/// A filter of a rule or of a backend.
#[derive(Debug)]
pub struct HTTPRouteFilter {
    pub kind: HTTPRouteFilterType,
    pub request_header_modifier: Option<HTTPHeaderModifier>,
    pub response_header_modifier: Option<HTTPHeaderModifier>,
    pub request_mirror: Option<HTTPRequestMirror>,
    pub request_redirect: Option<HTTPRequestRedirect>,
    pub url_rewrite: Option<HTTPURLRewrite>,
}

/// A backend of an HTTP rule.
#[derive(Debug)]
pub struct HTTPRouteRulesBackendRefs {
    pub name: String,
    pub namespace: Option<String>,
    pub port: Option<i32>,
    pub weight: Option<i32>,
    pub filters: Option<Vec<HTTPRouteFilter>>,
}

/// A rule of an HTTPRoute.
#[derive(Debug)]
pub struct HTTPRouteRules {
    pub name: Option<String>,
    pub backend_refs: Option<Vec<HTTPRouteRulesBackendRefs>>,
    pub filters: Option<Vec<HTTPRouteFilter>>,
    pub matches: Option<Vec<HTTPRouteRulesMatches>>,
}

/// An HTTPRoute: host names it serves and its rules.
#[derive(Debug)]
pub struct HTTPRoute {
    pub hostnames: Option<Vec<String>>,
    pub rules: Option<Vec<HTTPRouteRules>>,
}

/// The class of an instance of the HTTP service.
#[derive(Debug)]
pub enum InstanceClass {
    RequestHeaderModify,
    ResponseHeaderModify,
    RequestMirror,
    RequestRedirect,
    UrlRewrite,
    ExtensionRef,
    ReverseProxy,
    Balancer,
    Router,
}

/// Whether an instance is a filter or a node of the flow.
#[derive(Debug)]
pub enum InstanceType {
    Filter,
    Node,
}

/// A header name and value to set or add.
pub type HeaderPair = (String, String);

/// An output port of a node: its default one or a named one.
#[derive(Debug)]
pub enum NodePort {
    Default,
    Named(String),
}

/// An instance and one of its ports.
#[derive(Debug)]
pub struct NodeTarget {
    pub id: String,
    pub port: NodePort,
}

/// Where an output of the router goes: the filters applied on the way, then the target.
#[derive(Debug)]
pub struct NodeOutput {
    pub target: NodeTarget,
    pub filters: Vec<String>,
}

/// The value of a node target: instance id and port name (none for the default port).
pub open spec fn node_target_view(t: NodeTarget) -> (Seq<char>, Option<Seq<char>>) {
    (t.id@, match t.port { NodePort::Default => None, NodePort::Named(n) => Some(n@) })
}

/// The value of an output: target, then the filter ids in order.
pub open spec fn node_output_view(o: NodeOutput) -> ((Seq<char>, Option<Seq<char>>), Seq<Seq<char>>) {
    (node_target_view(o.target), crate::text::texts(o.filters@))
}

/// The rules that lead to one output of the router, in the order of the matches they come
/// from. They are not sorted: the order in which the router's own bucket type sorts its
/// rules is defined by that router, which this library does not have, so a bucket built
/// here keeps match order where that router's sort would reorder it.
#[derive(Debug)]
pub struct RuleBucket {
    pub target: String,
    pub rules: Vec<RuleMatch>,
}

impl RuleBucket {
    /// A copy.
    pub fn duplicate(&self) -> (r: Self)
        ensures
            bucket_view(r) == bucket_view(*self),
    {
        let mut rules: Vec<RuleMatch> = Vec::new();
        let mut i: usize = 0;
        while i < self.rules.len()
            invariant
                i <= self.rules@.len(),
                rules@.len() == i,
                forall|k: int| 0 <= k < i ==> #[trigger] rule_match_view(rules@[k]) == rule_match_view(self.rules@[k]),
            decreases self.rules@.len() - i,
        {
            rules.push(self.rules[i].duplicate());
            i = i + 1;
        }
        let r = RuleBucket { target: self.target.clone(), rules };
        assert(bucket_view(r).1 =~= bucket_view(*self).1);
        r
    }
}

/// The path entries of one host name: each path key with the rules that lead to an output.
#[derive(Debug)]
pub struct PathTree {
    pub entries: Vec<(String, RuleBucket)>,
}

/// The value of a rule: method, headers, queries.
pub type RuleMatchView = (Option<Seq<char>>, Seq<(Seq<char>, (bool, Seq<char>))>, Seq<(Seq<char>, (bool, Seq<char>))>);

pub open spec fn rule_match_view(r: RuleMatch) -> RuleMatchView {
    (crate::controller::resolve::k8s::service_config::opt_text(r.method),
        r.headers@.map_values(|h: rule_match::HeaderMatch| (h.header_name@, regex_or_exact_view(h.header_value))),
        r.queries@.map_values(|q: rule_match::QueryMatch| (q.query_name@, regex_or_exact_view(q.query_value))))
}

/// The value of a bucket: its output and its rules.
pub open spec fn bucket_view(b: RuleBucket) -> (Seq<char>, Seq<RuleMatchView>) {
    (b.target@, b.rules@.map_values(|r: RuleMatch| rule_match_view(r)))
}

/// The value of a path tree: its entries in order.
pub open spec fn path_tree_view(t: PathTree) -> Seq<(Seq<char>, (Seq<char>, Seq<RuleMatchView>))> {
    t.entries@.map_values(|e: (String, RuleBucket)| (e.0@, bucket_view(e.1)))
}

impl PathTree {
    /// An empty tree.
    pub fn new() -> (t: Self)
        ensures
            path_tree_view(t) == Seq::<(Seq<char>, (Seq<char>, Seq<RuleMatchView>))>::empty(),
    {
        let t = PathTree { entries: Vec::new() };
        assert(path_tree_view(t) =~= Seq::<(Seq<char>, (Seq<char>, Seq<RuleMatchView>))>::empty());
        t
    }

    /// A copy.
    pub fn duplicate(&self) -> (r: Self)
        ensures
            path_tree_view(r) == path_tree_view(*self),
    {
        let mut entries: Vec<(String, RuleBucket)> = Vec::new();
        let mut i: usize = 0;
        while i < self.entries.len()
            invariant
                i <= self.entries@.len(),
                entries@.len() == i,
                forall|k: int| 0 <= k < i ==> #[trigger] entries@[k].0@ == self.entries@[k].0@
                    && bucket_view(entries@[k].1) == bucket_view(self.entries@[k].1),
            decreases self.entries@.len() - i,
        {
            let e = &self.entries[i];
            entries.push((e.0.clone(), e.1.duplicate()));
            i = i + 1;
        }
        let r = PathTree { entries };
        assert(path_tree_view(r) =~= path_tree_view(*self));
        r
    }

    /// Adds a path entry after the others. A path already in the tree keeps its entry and
    /// gets a further one: the tree lists entries in the order they were added, and which of
    /// two entries for one path serves is left to the router that reads the tree.
    pub fn insert(&mut self, key: String, bucket: RuleBucket)
        ensures
            path_tree_view(*final(self)) == path_tree_view(*old(self)).push((key@, bucket_view(bucket))),
    {
        let ghost k = key@;
        let ghost bv = bucket_view(bucket);
        self.entries.push((key, bucket));
        assert(path_tree_view(*self) =~= path_tree_view(*old(self)).push((k, bv)));
    }

    /// Adds all entries of `other` after those of this tree.
    pub fn merge(&mut self, other: PathTree)
        ensures
            path_tree_view(*final(self)) == path_tree_view(*old(self)) + path_tree_view(other),
    {
        let mut rest = other.entries;
        let ghost all = rest@;
        while rest.len() > 0
            invariant
                rest@.len() <= all.len(),
                rest@ == all.subrange(all.len() - rest@.len(), all.len() as int),
                path_tree_view(*self) == path_tree_view(*old(self))
                    + all.subrange(0, all.len() - rest@.len()).map_values(|e: (String, RuleBucket)| (e.0@, bucket_view(e.1))),
            decreases rest@.len(),
        {
            let ghost n = rest@.len();
            let ghost before = path_tree_view(*self);
            let ghost f = |e: (String, RuleBucket)| (e.0@, bucket_view(e.1));
            let e = rest.remove(0);
            proof {
                assert(e == all[all.len() - n]);
                assert(rest@ =~= all.subrange(all.len() - (n - 1), all.len() as int));
            }
            let ghost ev = (e.0@, bucket_view(e.1));
            self.entries.push(e);
            proof {
                let m = all.len() - n;
                assert(path_tree_view(*self) =~= before.push(ev));
                assert(all.subrange(0, m + 1).map_values(f) =~= all.subrange(0, m).map_values(f).push(f(all[m])));
                assert(path_tree_view(*self) =~= path_tree_view(*old(self))
                    + all.subrange(0, all.len() - (n - 1)).map_values(|e: (String, RuleBucket)| (e.0@, bucket_view(e.1))));
            }
        }
        assert(all.subrange(0, all.len() as int) =~= all);
    }
}

/// The router being built: its outputs by port name, and the path tree of each host name.
pub struct HttpBuildingRouter {
    pub outputs: KeyedVec<String, NodeOutput>,
    pub hostname: KeyedVec<String, PathTree>,
}

/// The configuration of an instance of the HTTP service.
pub enum InstanceConfig {
    /// Headers to set, to add and to remove.
    HeaderModify { set: Vec<HeaderPair>, extend: Vec<HeaderPair>, remove: Vec<String> },
    /// Where mirrored requests go and which share is mirrored.
    Mirror { target: String, possibility: Option<String> },
    /// The redirect status and location.
    Redirect { status_code: Option<u16>, to: String },
    /// The rewritten path and host.
    UrlRewrite { path: Option<String>, hostname: Option<String> },
    /// No settings.
    Empty,
    /// The upstream of a reverse proxy, and how it is resolved.
    ReverseProxy { backend: String, scheme: String },
    /// A balancer: its strategy and the weight of each output.
    Balancer { strategy: String, weights: KeyedVec<String, u32> },
    /// A router: its outputs by port name and the path tree of each host name.
    Router { outputs: KeyedVec<String, NodeOutput>, hostname: KeyedVec<String, PathTree> },
}

/// An instance of the HTTP service: a filter or a node of the flow.
pub struct InstanceData {
    pub name: Option<String>,
    pub class: InstanceClass,
    pub kind: InstanceType,
    pub config: InstanceConfig,
}

/// The value of an instance's configuration.
pub enum InstanceConfigView {
    HeaderModify { set: Seq<(Seq<char>, Seq<char>)>, extend: Seq<(Seq<char>, Seq<char>)>, remove: Seq<Seq<char>> },
    Mirror { target: Seq<char>, possibility: Option<Seq<char>> },
    Redirect { status_code: Option<u16>, to: Seq<char> },
    UrlRewrite { path: Option<Seq<char>>, hostname: Option<Seq<char>> },
    Empty,
    ReverseProxy { backend: Seq<char>, scheme: Seq<char> },
    Balancer { strategy: Seq<char>, weights: Map<Seq<char>, u32> },
    Router {
        outputs: Map<Seq<char>, ((Seq<char>, Option<Seq<char>>), Seq<Seq<char>>)>,
        hostname: Map<Seq<char>, Seq<(Seq<char>, (Seq<char>, Seq<RuleMatchView>))>>,
    },
}

/// The value of an instance: class, kind and configuration (instances are never named here).
pub struct InstanceView {
    pub named: bool,
    pub class: InstanceClass,
    pub kind: InstanceType,
    pub config: InstanceConfigView,
}

pub open spec fn pairs_view(s: Seq<HeaderPair>) -> Seq<(Seq<char>, Seq<char>)> {
    s.map_values(|p: HeaderPair| (p.0@, p.1@))
}

pub open spec fn instance_config_view(c: InstanceConfig) -> InstanceConfigView {
    match c {
        InstanceConfig::HeaderModify { set, extend, remove } => InstanceConfigView::HeaderModify {
            set: pairs_view(set@), extend: pairs_view(extend@), remove: crate::text::texts(remove@) },
        InstanceConfig::Mirror { target, possibility } => InstanceConfigView::Mirror {
            target: target@, possibility: match possibility { Some(p) => Some(p@), None => None } },
        InstanceConfig::Redirect { status_code, to } => InstanceConfigView::Redirect { status_code, to: to@ },
        InstanceConfig::UrlRewrite { path, hostname } => InstanceConfigView::UrlRewrite {
            path: match path { Some(p) => Some(p@), None => None },
            hostname: match hostname { Some(h) => Some(h@), None => None } },
        InstanceConfig::Empty => InstanceConfigView::Empty,
        InstanceConfig::ReverseProxy { backend, scheme } => InstanceConfigView::ReverseProxy { backend: backend@, scheme: scheme@ },
        InstanceConfig::Balancer { strategy, weights } => InstanceConfigView::Balancer { strategy: strategy@, weights: weights.map() },
        InstanceConfig::Router { outputs, hostname } => InstanceConfigView::Router {
            outputs: outputs.map().map_values(|o: NodeOutput| node_output_view(o)),
            hostname: hostname.map().map_values(|t: PathTree| path_tree_view(t)),
        },
    }
}

pub open spec fn instance_view(d: InstanceData) -> InstanceView {
    InstanceView { named: d.name is Some, class: d.class, kind: d.kind, config: instance_config_view(d.config) }
}

/// The flow of the HTTP service: where requests enter, and its instances by id.
pub struct HttpFlow {
    pub entrypoint: NodeTarget,
    pub instances: KeyedVec<String, InstanceData>,
    pub filters: KeyedVec<String, InstanceData>,
    pub nodes: KeyedVec<String, InstanceData>,
}

/// The configuration of the `http` service provider.
pub struct HttpConfig {
    pub flow: HttpFlow,
}

/// The instances of a flow map, by value.
pub open spec fn instances_view(m: Map<Seq<char>, InstanceData>) -> Map<Seq<char>, InstanceView> {
    m.map_values(|d: InstanceData| instance_view(d))
}

impl HttpConfig {
    /// An empty flow entered at an instance with the empty id.
    pub fn new() -> (c: Self)
        ensures
            c.flow.entrypoint.id@ == Seq::<char>::empty(),
            c.flow.entrypoint.port is Default,
            c.flow.instances.map() == Map::<Seq<char>, InstanceData>::empty(),
            c.flow.filters.map() == Map::<Seq<char>, InstanceData>::empty(),
            c.flow.nodes.map() == Map::<Seq<char>, InstanceData>::empty(),
    {
        HttpConfig {
            flow: HttpFlow {
                entrypoint: NodeTarget { id: String::new(), port: NodePort::Default },
                instances: KeyedVec::new(),
                filters: KeyedVec::new(),
                nodes: KeyedVec::new(),
            },
        }
    }
}

/// Builds the HTTP service of a gateway.
pub struct HttpGatewayBuilder {
    pub config: HttpConfig,
    pub internal_error_500_page_instance_id: String,
}

impl HttpGatewayBuilder {
    /// A builder with an empty flow; requests without a backend go to `internal-error-500-page`.
    pub fn new() -> (b: Self)
        ensures
            b.internal_error_500_page_instance_id@ == "internal-error-500-page"@,
            b.config.flow.entrypoint.id@ == Seq::<char>::empty(),
            b.config.flow.instances.map() == Map::<Seq<char>, InstanceData>::empty(),
            b.config.flow.filters.map() == Map::<Seq<char>, InstanceData>::empty(),
            b.config.flow.nodes.map() == Map::<Seq<char>, InstanceData>::empty(),
    {
        HttpGatewayBuilder {
            config: HttpConfig::new(),
            internal_error_500_page_instance_id: crate::text::owned("internal-error-500-page"),
        }
    }
}

/// The state after adding the routes `routes`, in order.
pub open spec fn routes_fold(s: RouterBuildView, routes: Seq<(String, HTTPRoute)>, internal: Seq<char>) -> RouterBuildView
    decreases routes.len(),
{
    if routes.len() == 0 {
        s
    } else {
        route_step(routes_fold(s, routes.drop_last(), internal), routes.last().0@, routes.last().1, internal)
    }
}

/// The id of the router node.
pub open spec fn router_id() -> Seq<char> {
    "router"@
}

/// The router node of a finished build.
pub open spec fn router_view(s: RouterBuildView) -> InstanceView {
    InstanceView {
        named: false,
        class: InstanceClass::Router,
        kind: InstanceType::Node,
        config: InstanceConfigView::Router { outputs: s.outputs, hostname: s.hosts },
    }
}

/// The state a build starts from: the builder's flow, and a router with no outputs yet.
pub open spec fn router_start(b: HttpGatewayBuilder) -> RouterBuildView {
    RouterBuildView {
        instances: instances_view(b.config.flow.instances.map()),
        filters: instances_view(b.config.flow.filters.map()),
        outputs: Map::empty(),
        hosts: Map::empty(),
        entries: Seq::empty(),
    }
}

impl HttpGatewayBuilder {
    /// Adds the routes in the order of `http_routes` to a new router, which becomes the
    /// `router` node and the flow's entry point.
    pub fn build_router(&mut self, http_routes: &KeyedVec<String, HTTPRoute>)
        ensures
            ({
                let s = routes_fold(router_start(*old(self)), http_routes.seq(), old(self).internal_error_500_page_instance_id@);
                &&& instances_view(final(self).config.flow.instances.map()) == s.instances
                &&& instances_view(final(self).config.flow.filters.map()) == s.filters
                &&& instances_view(final(self).config.flow.nodes.map())
                    == instances_view(old(self).config.flow.nodes.map()).insert(router_id(), router_view(s))
            }),
            final(self).config.flow.entrypoint.id@ == router_id(),
            final(self).config.flow.entrypoint.port is Default,
            final(self).internal_error_500_page_instance_id == old(self).internal_error_500_page_instance_id,
    {
        let ghost internal = self.internal_error_500_page_instance_id@;
        let ghost start = router_start(*self);
        let mut building_router = HttpBuildingRouter { outputs: KeyedVec::new(), hostname: KeyedVec::new() };
        let routes = http_routes.entries();
        proof {
            assert(building_router.outputs.map().map_values(|o: NodeOutput| node_output_view(o)) =~= Map::empty());
            assert(building_router.hostname.map().map_values(|t: PathTree| path_tree_view(t)) =~= Map::empty());
            assert(build_state(*self, building_router) == start);
        }
        let mut i: usize = 0;
        while i < routes.len()
            invariant
                i <= routes@.len(),
                routes@ == http_routes.seq(),
                internal == self.internal_error_500_page_instance_id@,
                self.internal_error_500_page_instance_id == old(self).internal_error_500_page_instance_id,
                self.config.flow.nodes.map() == old(self).config.flow.nodes.map(),
                build_state(*self, building_router) == routes_fold(start, routes@.take(i as int), internal),
            decreases routes@.len() - i,
        {
            let ghost s = routes_fold(start, routes@.take(i as int), internal);
            self.build_route(routes[i].0.as_str(), &routes[i].1, &mut building_router);
            proof {
                let t = routes@.take(i + 1);
                assert(t.drop_last() =~= routes@.take(i as int));
                assert(t.last() == routes@[i as int]);
            }
            i = i + 1;
        }
        assert(routes@.take(routes@.len() as int) =~= routes@);
        let ghost s = build_state(*self, building_router);
        let router = InstanceData {
            class: InstanceClass::Router,
            name: None,
            kind: InstanceType::Node,
            config: InstanceConfig::Router { outputs: building_router.outputs, hostname: building_router.hostname },
        };
        assert(instance_view(router) == router_view(s));
        self.config.flow.entrypoint = NodeTarget { id: crate::text::owned("router"), port: NodePort::Default };
        let ghost before = self.config.flow.nodes.map();
        self.config.flow.nodes.insert(crate::text::owned("router"), router);
        assert(instances_view(self.config.flow.nodes.map()) =~= instances_view(before).insert(router_id(), router_view(s)));
    }

    /// The flow of the HTTP service for `http_routes`: the builder's flow with the router added.
    pub fn build(self, http_routes: &KeyedVec<String, HTTPRoute>) -> (c: HttpConfig)
        ensures
            ({
                let s = routes_fold(router_start(self), http_routes.seq(), self.internal_error_500_page_instance_id@);
                &&& instances_view(c.flow.instances.map()) == s.instances
                &&& instances_view(c.flow.filters.map()) == s.filters
                &&& instances_view(c.flow.nodes.map())
                    == instances_view(self.config.flow.nodes.map()).insert(router_id(), router_view(s))
            }),
            c.flow.entrypoint.id@ == router_id(),
            c.flow.entrypoint.port is Default,
    {
        let mut b = self;
        b.build_router(http_routes);
        b.config
    }
}

/// The value of an HTTP service configuration: entry point and instances by id.
pub struct HttpConfigView {
    pub entrypoint: (Seq<char>, Option<Seq<char>>),
    pub instances: Map<Seq<char>, InstanceView>,
    pub filters: Map<Seq<char>, InstanceView>,
    pub nodes: Map<Seq<char>, InstanceView>,
}

pub open spec fn http_config_view(c: HttpConfig) -> HttpConfigView {
    HttpConfigView {
        entrypoint: node_target_view(c.flow.entrypoint),
        instances: instances_view(c.flow.instances.map()),
        filters: instances_view(c.flow.filters.map()),
        nodes: instances_view(c.flow.nodes.map()),
    }
}

/// The HTTP flow built for `routes` from an empty one.
pub open spec fn http_flow_view(routes: Seq<(String, HTTPRoute)>) -> HttpConfigView {
    let start = RouterBuildView {
        instances: Map::empty(), filters: Map::empty(), outputs: Map::empty(), hosts: Map::empty(), entries: Seq::empty(),
    };
    let s = routes_fold(start, routes, "internal-error-500-page"@);
    HttpConfigView {
        entrypoint: (router_id(), None),
        instances: s.instances,
        filters: s.filters,
        nodes: Map::<Seq<char>, InstanceView>::empty().insert(router_id(), router_view(s)),
    }
}

/// A listener served by the HTTP service.
pub open spec fn is_http_listener(l: GatewayListener) -> bool {
    l.protocol@ == "HTTP"@ || l.protocol@ == "HTTPS"@
}

/// The certificate references of a listener (none when absent).
pub open spec fn listener_certificate_refs(l: GatewayListener) -> Seq<crate::controller::resolve::k8s::service_config::CertificateRef> {
    match l.tls {
        Some(t) => match t.certificate_refs { Some(r) => r@, None => Seq::empty() },
        None => Seq::empty(),
    }
}

/// The certificate name of an HTTP listener on `port`.
pub open spec fn http_tls_name(gw: Seq<char>, port: u16) -> Seq<char> {
    "k8s-gateway-"@ + gw + "-listener-"@ + decimal(port as nat) + "-tls"@
}

/// What a listener adds for the HTTP service `name`: a listener and a route on its port,
/// and, when it has certificate references, a certificate named after the port holding the
/// last of them.
pub open spec fn http_listener_effect(c: ServiceConfigView, gw: Seq<char>, name: Seq<char>, l: GatewayListener) -> ServiceConfigView {
    let port = l.port as u16;
    let refs = listener_certificate_refs(l);
    let tls_name = http_tls_name(gw, port);
    ServiceConfigView {
        services: c.services,
        listeners: c.listeners.insert(port, (port, Some("listener on "@ + decimal(port as nat) + " for "@ + gw))),
        routes: c.routes.insert(port, (port, name, if refs.len() > 0 { Some(tls_name) } else { None })),
        tls: if refs.len() > 0 {
            c.tls.insert(tls_name, (opt_text(refs.last().namespace), refs.last().name@))
        } else {
            c.tls
        },
    }
}

/// What one listener adds for the HTTP service `name`: the above for an HTTP or HTTPS
/// listener, nothing for another.
pub open spec fn http_listener_step(c: ServiceConfigView, gw: Seq<char>, name: Seq<char>, l: GatewayListener) -> ServiceConfigView {
    if !is_http_listener(l) {
        c
    } else {
        http_listener_effect(c, gw, name, l)
    }
}

/// The configuration after the listeners `ls`, in order.
pub open spec fn http_listeners_fold(c: ServiceConfigView, gw: Seq<char>, name: Seq<char>, ls: Seq<GatewayListener>) -> ServiceConfigView
    decreases ls.len(),
{
    if ls.len() == 0 {
        c
    } else {
        http_listener_step(http_listeners_fold(c, gw, name, ls.drop_last()), gw, name, ls.last())
    }
}

/// The name of a gateway's HTTP service.
pub open spec fn http_service_name(gw: Seq<char>) -> Seq<char> {
    "http-gateway-"@ + gw
}

/// The configuration after adding the HTTP service of a gateway that has HTTP listeners.
pub open spec fn with_http_service(c: ServiceConfigView, g: K8sGatewayGatewayData) -> ServiceConfigView {
    let gw = g.gateway.name@;
    let name = http_service_name(gw);
    let c1 = http_listeners_fold(c, gw, name, g.gateway.listeners@);
    ServiceConfigView {
        services: c1.services.insert(name, ("http"@, name, Some(ConfigView::Http(http_flow_view(g.http_routes.seq()))),
            Some("HTTP Gateway for K8s Gateway "@ + gw))),
        listeners: c1.listeners,
        routes: c1.routes,
        tls: c1.tls,
    }
}

/// Adds the listener and route of an HTTP listener `l` for the service `service_name` of
/// gateway `gw`, with its certificate when it has certificate references.
pub(crate) fn add_http_listener(config: &mut ServiceConfig, gw: &str, service_name: &str, l: &GatewayListener)
    ensures
        service_config_view(*final(config)) == http_listener_effect(service_config_view(*old(config)), gw@, service_name@, *l),
{
    let ghost before = service_config_view(*config);
    let port: u16 = l.port as u16;
    let digits = u64_text(port as u64);
    let ghost tn = http_tls_name(gw@, port);
    let mut tls_name: Option<String> = None;
    match &l.tls {
        Some(tls) => match &tls.certificate_refs {
            Some(refs) => {
                let mut k: usize = 0;
                while k < refs.len()
                    invariant
                        k <= refs@.len(),
                        refs@ == listener_certificate_refs(*l),
                        digits@ == decimal(port as nat),
                        tn == http_tls_name(gw@, port),
                        k == 0 ==> tls_name is None && service_config_view(*config) == before,
                        k > 0 ==> tls_name is Some && tls_name->0@ == tn
                            && service_config_view(*config) == (ServiceConfigView {
                                services: before.services,
                                listeners: before.listeners,
                                routes: before.routes,
                                tls: before.tls.insert(tn, (opt_text(refs@[k - 1].namespace), refs@[k - 1].name@)),
                            }),
                    decreases refs@.len() - k,
                {
                    let r = &refs[k];
                    let mut name = concat4("k8s-gateway-", gw, "-listener-", digits.as_str());
                    name.append("-tls");
                    let ghost cb = service_config_view(*config);
                    config.tls.insert(name.clone(), Tls {
                        resolver: K8sResource::new(r.namespace.clone(), r.name.clone()),
                        options: TlsOptions {},
                    });
                    proof {
                        assert(service_config_view(*config).tls =~= cb.tls.insert(tn, (opt_text(refs@[k as int].namespace), refs@[k as int].name@)));
                        assert(service_config_view(*config).tls =~= before.tls.insert(tn, (opt_text(refs@[k as int].namespace), refs@[k as int].name@)));
                    }
                    tls_name = Some(name);
                    k = k + 1;
                }
            },
            None => {},
        },
        None => {},
    }
    config.tcp_listeners.insert(port, Listener {
        bind: port,
        description: Some(concat4("listener on ", digits.as_str(), " for ", gw)),
    });
    config.tcp_routes.insert(port, TcpRoute { bind: port, service: service_name.to_string(), tls: tls_name });
    proof {
        let expected = http_listener_effect(before, gw@, service_name@, *l);
        assert(service_config_view(*config).listeners =~= expected.listeners);
        assert(service_config_view(*config).routes =~= expected.routes);
        assert(service_config_view(*config).tls =~= expected.tls);
        assert(service_config_view(*config).services =~= expected.services);
    }
}

/// Whether `protocol` is served by the HTTP service.
fn is_http_protocol(protocol: &str) -> (b: bool)
    ensures
        b == (protocol@ == "HTTP"@ || protocol@ == "HTTPS"@),
{
    same_text(protocol, "HTTP") || same_text(protocol, "HTTPS")
}

impl ServiceBuilder {
    /// Adds the `http` service of a gateway when it has HTTP or HTTPS listeners: the router
    /// built from its HTTP routes, and a listener and route on the port of each such listener.
    /// Returns the service's name, or `None` (nothing added) when there is no such listener.
    pub fn build_http_service(&mut self, gateway: &K8sGatewayGatewayData) -> (r: Option<String>)
        ensures
            r is None <==> forall|i: int| 0 <= i < gateway.gateway.listeners@.len()
                ==> !is_http_listener(#[trigger] gateway.gateway.listeners@[i]),
            r is None ==> service_config_view(final(self).config) == service_config_view(old(self).config),
            r is Some ==> r->0@ == http_service_name(gateway.gateway.name@)
                && service_config_view(final(self).config) == with_http_service(service_config_view(old(self).config), *gateway),
    {
        let gw = gateway.gateway.name.as_str();
        let listeners = &gateway.gateway.listeners;
        let mut any = false;
        let mut i: usize = 0;
        while i < listeners.len()
            invariant
                i <= listeners@.len(),
                listeners@ == gateway.gateway.listeners@,
                any == exists|k: int| 0 <= k < i && is_http_listener(#[trigger] listeners@[k]),
            decreases listeners@.len() - i,
        {
            if is_http_protocol(listeners[i].protocol.as_str()) {
                any = true;
            }
            i = i + 1;
        }
        if !any {
            return None;
        }
        let builder = HttpGatewayBuilder::new();
        proof {
            assert(instances_view(builder.config.flow.instances.map()) =~= Map::empty());
            assert(instances_view(builder.config.flow.filters.map()) =~= Map::empty());
            assert(instances_view(builder.config.flow.nodes.map()) =~= Map::empty());
        }
        let config = builder.build(&gateway.http_routes);
        assert(http_config_view(config) == http_flow_view(gateway.http_routes.seq()));
        let service_name = concat2("http-gateway-", gw);
        let ghost c0 = service_config_view(self.config);
        let mut j: usize = 0;
        while j < listeners.len()
            invariant
                j <= listeners@.len(),
                listeners@ == gateway.gateway.listeners@,
                gw@ == gateway.gateway.name@,
                service_name@ == http_service_name(gw@),
                service_config_view(self.config) == http_listeners_fold(c0, gw@, service_name@, listeners@.take(j as int)),
            decreases listeners@.len() - j,
        {
            let l = &listeners[j];
            proof {
                let t = listeners@.take(j + 1);
                assert(t.drop_last() =~= listeners@.take(j as int));
                assert(t.last() == listeners@[j as int]);
            }
            if is_http_protocol(l.protocol.as_str()) {
                add_http_listener(&mut self.config, gw, service_name.as_str(), l);
            }
            j = j + 1;
        }
        assert(listeners@.take(listeners@.len() as int) =~= listeners@);
        let service = TcpServiceConfig {
            provider: owned("http"),
            name: service_name.clone(),
            config: Some(ServiceConfigValue::Http(config)),
            description: Some(concat2("HTTP Gateway for K8s Gateway ", gw)),
        };
        self.config.tcp_services.insert(service_name.clone(), service);
        proof {
            let expected = with_http_service(c0, *gateway);
            assert(service_config_view(self.config).services =~= expected.services);
            assert(service_config_view(self.config).listeners =~= expected.listeners);
            assert(service_config_view(self.config).routes =~= expected.routes);
            assert(service_config_view(self.config).tls =~= expected.tls);
        }
        Some(service_name)
    }
}

/// Every HTTP or HTTPS listener of a gateway gets a listener and a route on its port, and
/// the route leads to the gateway's HTTP service.
pub proof fn lemma_http_listeners_routed(c: ServiceConfigView, gw: Seq<char>, name: Seq<char>, ls: Seq<GatewayListener>, i: int)
    requires
        0 <= i < ls.len(),
        is_http_listener(ls[i]),
    ensures
        http_listeners_fold(c, gw, name, ls).listeners.dom().contains(ls[i].port as u16),
        http_listeners_fold(c, gw, name, ls).routes.dom().contains(ls[i].port as u16),
        http_listeners_fold(c, gw, name, ls).routes[ls[i].port as u16].1 == name,
    decreases ls.len(),
{
    let p = ls.drop_last();
    if i == ls.len() - 1 {
        assert(ls.last() == ls[i]);
    } else {
        lemma_http_listeners_routed(c, gw, name, p, i);
        assert(p[i] == ls[i]);
    }
}

/// A gateway's HTTP service is `http-gateway-<gateway>`; an HTTP listener with certificate
/// references takes the last of them as the certificate `k8s-gateway-<gateway>-listener-<port>-tls`,
/// used by the route on its port; without references the route has no certificate.
pub proof fn lemma_http_listener_names(c: ServiceConfigView, gw: Seq<char>, name: Seq<char>, l: GatewayListener)
    ensures
        is_http_listener(l) <==> (l.protocol@ == "HTTP"@ || l.protocol@ == "HTTPS"@),
        http_service_name(gw) == "http-gateway-"@ + gw,
        http_tls_name(gw, l.port as u16) == "k8s-gateway-"@ + gw + "-listener-"@ + decimal(l.port as u16 as nat) + "-tls"@,
        listener_certificate_refs(l).len() > 0 ==> {
            &&& http_listener_effect(c, gw, name, l).routes[l.port as u16] == (l.port as u16, name, Some(http_tls_name(gw, l.port as u16)))
            &&& http_listener_effect(c, gw, name, l).tls[http_tls_name(gw, l.port as u16)]
                == (opt_text(listener_certificate_refs(l).last().namespace), listener_certificate_refs(l).last().name@)
        },
        listener_certificate_refs(l).len() == 0 ==>
            http_listener_effect(c, gw, name, l).routes[l.port as u16] == (l.port as u16, name, None::<Seq<char>>),
{
}

} // verus!
