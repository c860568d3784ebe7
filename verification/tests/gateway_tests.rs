use switchboard_controller::controller::resolve::k8s::service_config::gather::{
    gather_gateways, GatewayClassInfo, GatewayInfo, RouteInfo,
};
use switchboard_controller::controller::resolve::k8s::service_config::http::filter::{
    build_filter_instance_from_k8s_filter, build_redirect, build_request_mirror, build_url_rewrite, filter_id,
};
use switchboard_controller::controller::resolve::k8s::service_config::http::rule_match::{
    dedup_texts, k8s_method_to_http_method, match_key_of, RegexOrExact,
};
use switchboard_controller::controller::resolve::k8s::service_config::http::{
    HTTPHeader, HTTPHeaderModifier, HTTPPathModifier, HTTPPathModifierType, HTTPRedirectScheme, HTTPRequestMirror,
    HTTPRequestRedirect, HTTPRoute, HTTPRouteFilter, HTTPRouteFilterType, HTTPRouteRules, HTTPRouteRulesBackendRefs,
    HTTPRouteRulesMatches, HTTPRouteRulesMatchesHeaders, HTTPRouteRulesMatchesMethod, HTTPRouteRulesMatchesPath,
    HTTPRouteRulesMatchesPathType, HTTPRouteRulesMatchesValueType, HTTPURLRewrite, HttpBuildingRouter,
    HttpGatewayBuilder, InstanceClass, InstanceConfig, MirrorBackendRef, MirrorFraction, NodePort, PathTree,
    RuleBucket,
};
use switchboard_controller::controller::resolve::k8s::service_config::tcp::ServiceBuilder;
use switchboard_controller::controller::resolve::k8s::service_config::tcp::match_parent::{
    parent_ref_matches_listener, ParentRef,
};
use switchboard_controller::controller::resolve::k8s::service_config::tcp::outbound::Outbound;
use switchboard_controller::controller::resolve::k8s::service_config::{
    target_name, BackendRef, CertificateRef, Gateway, GatewayListener, GatewayListenerTls, GatewayListenersTlsMode,
    K8sGatewayGatewayData, K8sResource, K8sServiceBuildConfig, RouteRule, ServiceConfigValue, TCPRoute, TLSRoute,
    TlsStrategyConfig,
};
use switchboard_controller::controller::resource::gateway::k8s as resource_k8s;
use switchboard_controller::keyed::KeyedVec;

fn s(x: &str) -> String {
    x.to_string()
}

fn listener(name: &str, port: i32, protocol: &str, tls: Option<GatewayListenerTls>) -> GatewayListener {
    GatewayListener { name: s(name), port, protocol: s(protocol), tls }
}

fn cert(name: &str, ns: Option<&str>) -> CertificateRef {
    CertificateRef { name: s(name), namespace: ns.map(s) }
}

fn parent(gw: &str) -> ParentRef {
    ParentRef { name: s(gw), port: None, section_name: None }
}

fn backend(name: &str, ns: Option<&str>, port: Option<i32>) -> BackendRef {
    BackendRef { name: s(name), namespace: ns.map(s), port, weight: None }
}

fn gateway_data(listeners: Vec<GatewayListener>) -> K8sGatewayGatewayData {
    K8sGatewayGatewayData {
        gateway: Gateway { name: s("gw"), listeners },
        http_routes: KeyedVec::new(),
        tcp_routes: KeyedVec::new(),
        tls_routes: KeyedVec::new(),
    }
}

#[test]
fn target_names() {
    assert_eq!(target_name("svc", Some("ns"), Some(80)), "svc.ns.port80");
    assert_eq!(target_name("svc", Some("ns"), None), "svc.ns");
    assert_eq!(target_name("svc", None, Some(80)), "svc.port80");
    assert_eq!(target_name("svc", None, None), "svc");
}

#[test]
fn parent_refs_name_listeners() {
    assert!(parent_ref_matches_listener("gw", None, None, "gw", "web", 80));
    assert!(parent_ref_matches_listener("gw", Some(80), Some("web"), "gw", "web", 80));
    assert!(!parent_ref_matches_listener("gw", Some(81), None, "gw", "web", 80));
    assert!(!parent_ref_matches_listener("gw", None, Some("other"), "gw", "web", 80));
    assert!(!parent_ref_matches_listener("gw2", None, None, "gw", "web", 80));
}

#[test]
fn resource_names_and_build_config() {
    let r = K8sResource::new(Some(s("ns")), s("secret"));
    assert_eq!(r.namespace, Some(s("ns")));
    assert_eq!(r.name, "secret");
    assert_eq!(K8sServiceBuildConfig::default().gateway_namespace, "default");
}

#[test]
fn tcp_services_for_passthrough_and_terminate_listeners() {
    let mut data = gateway_data(vec![
        listener("pt", 443, "TLS", Some(GatewayListenerTls { mode: Some(GatewayListenersTlsMode::Passthrough), certificate_refs: None })),
        listener("term", 8443, "TLS", Some(GatewayListenerTls {
            mode: Some(GatewayListenersTlsMode::Terminate),
            certificate_refs: Some(vec![cert("tls-a", Some("ns1")), cert("tls-b", None)]),
        })),
        listener("web", 80, "HTTP", None),
    ]);
    data.tls_routes.insert(s("r1"), TLSRoute {
        parent_refs: Some(vec![parent("gw")]),
        hostnames: vec![s("a.example.com")],
        rules: vec![RouteRule { backend_refs: vec![backend("svc", Some("default"), Some(443))] }],
    });
    data.tcp_routes.insert(s("t1"), TCPRoute {
        parent_refs: Some(vec![parent("gw")]),
        rules: vec![RouteRule { backend_refs: vec![backend("db", None, Some(5432))] }],
    });
    let mut b = ServiceBuilder::new();
    let names = b.build_tcp_services(&data);
    assert_eq!(names, vec![s("tcp-gateway-gw-pt"), s("tcp-gateway-gw-term")]);
    for n in &names {
        assert!(b.config.tcp_services.get(n).is_some());
    }
    let pt = b.config.tcp_services.get(&s("tcp-gateway-gw-pt")).unwrap();
    assert_eq!(pt.provider, "tcp");
    assert_eq!(pt.description, Some(s("K8s TCP Gateway passthrough for gw listener pt")));
    match &pt.config {
        Some(ServiceConfigValue::Tcp(c)) => match &c.strategy_config {
            TlsStrategyConfig::Passthrough(m) => {
                assert_eq!(m.len(), 1);
                match m.get(&s("a.example.com")) {
                    Some(Outbound::Single(e)) => {
                        assert_eq!(e.host, "svc.default");
                        assert_eq!(e.port, 443);
                        assert_eq!(e.weight, None);
                    },
                    other => panic!("unexpected {:?}", other.is_some()),
                }
            },
            _ => panic!("expected passthrough"),
        },
        _ => panic!("expected tcp config"),
    }
    let term = b.config.tcp_services.get(&s("tcp-gateway-gw-term")).unwrap();
    match &term.config {
        Some(ServiceConfigValue::Tcp(c)) => match &c.strategy_config {
            TlsStrategyConfig::Terminate(Outbound::Single(e)) => {
                assert_eq!(e.host, "db");
                assert_eq!(e.port, 5432);
            },
            _ => panic!("expected terminate with one endpoint"),
        },
        _ => panic!("expected tcp config"),
    }
    assert_eq!(b.config.tcp_listeners.get(&443).unwrap().description, Some(s("tls passthrough listener pt for gw")));
    assert_eq!(b.config.tcp_listeners.get(&8443).unwrap().description, Some(s("tls terminate listener term for gw")));
    assert!(b.config.tcp_listeners.get(&80).is_none());
    let route = b.config.tcp_routes.get(&8443).unwrap();
    assert_eq!(route.service, "tcp-gateway-gw-term");
    assert_eq!(route.tls, Some(s("k8s-gateway-gw-listener-term-tls")));
    assert_eq!(b.config.tcp_routes.get(&443).unwrap().tls, None);
    let tls = b.config.tls.get(&s("k8s-gateway-gw-listener-term-tls")).unwrap();
    assert_eq!(tls.resolver.name, "tls-a");
    assert_eq!(tls.resolver.namespace, Some(s("ns1")));
}

#[test]
fn listener_without_routes_gets_no_tcp_service() {
    let data = gateway_data(vec![listener("pt", 443, "TLS", Some(GatewayListenerTls {
        mode: Some(GatewayListenersTlsMode::Passthrough), certificate_refs: None }))]);
    let mut b = ServiceBuilder::new();
    assert!(b.build_tcp_services(&data).is_empty());
    assert_eq!(b.config.tcp_services.len(), 0);
}

fn header_set_filter(name: &str, value: &str) -> HTTPRouteFilter {
    HTTPRouteFilter {
        kind: HTTPRouteFilterType::RequestHeaderModifier,
        request_header_modifier: Some(HTTPHeaderModifier {
            add: None,
            set: Some(vec![HTTPHeader { name: s(name), value: s(value) }]),
            remove: Some(vec![s("x-drop")]),
        }),
        response_header_modifier: None,
        request_mirror: None,
        request_redirect: None,
        url_rewrite: None,
    }
}

fn prefix_match(path: &str, method: Option<HTTPRouteRulesMatchesMethod>) -> HTTPRouteRulesMatches {
    HTTPRouteRulesMatches {
        path: Some(HTTPRouteRulesMatchesPath { kind: Some(HTTPRouteRulesMatchesPathType::PathPrefix), value: Some(s(path)) }),
        headers: None,
        query_params: None,
        method,
    }
}

fn http_backend(name: &str, ns: Option<&str>, port: Option<i32>, weight: Option<i32>) -> HTTPRouteRulesBackendRefs {
    HTTPRouteRulesBackendRefs { name: s(name), namespace: ns.map(s), port, weight, filters: None }
}

fn api_route(hostnames: Option<Vec<String>>) -> HTTPRoute {
    HTTPRoute {
        hostnames,
        rules: Some(vec![HTTPRouteRules {
            name: None,
            backend_refs: Some(vec![http_backend("app", None, Some(8080), None)]),
            filters: Some(vec![header_set_filter("x-a", "1")]),
            matches: Some(vec![prefix_match("/api/", Some(HTTPRouteRulesMatchesMethod::Get))]),
        }]),
    }
}

#[test]
fn http_service_for_http_listeners() {
    let mut data = gateway_data(vec![
        listener("web", 80, "HTTP", None),
        listener("secure", 443, "HTTPS", Some(GatewayListenerTls {
            mode: None,
            certificate_refs: Some(vec![cert("first", None), cert("second", Some("ns2"))]),
        })),
        listener("raw", 9000, "TCP", None),
    ]);
    data.http_routes.insert(s("r1"), api_route(Some(vec![s("example.com")])));
    let mut b = ServiceBuilder::new();
    let name = b.build_http_service(&data);
    assert_eq!(name, Some(s("http-gateway-gw")));
    assert_eq!(b.config.tcp_listeners.get(&80).unwrap().description, Some(s("listener on 80 for gw")));
    assert_eq!(b.config.tcp_routes.get(&80).unwrap().tls, None);
    assert_eq!(b.config.tcp_routes.get(&443).unwrap().tls, Some(s("k8s-gateway-gw-listener-443-tls")));
    assert!(b.config.tcp_routes.get(&9000).is_none());
    assert_eq!(b.config.tcp_routes.get(&80).unwrap().service, "http-gateway-gw");
    assert_eq!(b.config.tcp_routes.get(&443).unwrap().service, "http-gateway-gw");
    let tls = b.config.tls.get(&s("k8s-gateway-gw-listener-443-tls")).unwrap();
    assert_eq!(tls.resolver.name, "second");
    let svc = b.config.tcp_services.get(&s("http-gateway-gw")).unwrap();
    assert_eq!(svc.provider, "http");
    assert_eq!(svc.description, Some(s("HTTP Gateway for K8s Gateway gw")));
    let flow = match &svc.config {
        Some(ServiceConfigValue::Http(c)) => &c.flow,
        _ => panic!("expected http config"),
    };
    assert_eq!(flow.entrypoint.id, "router");
    assert!(matches!(flow.entrypoint.port, NodePort::Default));
    let router = flow.nodes.get(&s("router")).unwrap();
    assert!(matches!(router.class, InstanceClass::Router));
    match &router.config {
        InstanceConfig::Router { outputs, hostname } => {
            let out = outputs.get(&s("r1-rule-0")).unwrap();
            assert_eq!(out.target.id, "r1-rule-0-backend-0-app");
            assert_eq!(out.filters, vec![s("filter-r1-rule-0-0")]);
            let tree = hostname.get(&s("example.com")).unwrap();
            assert_eq!(tree.entries.len(), 1);
            assert_eq!(tree.entries[0].0, "/api{*rest}");
            assert_eq!(tree.entries[0].1.target, "r1-rule-0");
            assert_eq!(tree.entries[0].1.rules.len(), 1);
            assert_eq!(tree.entries[0].1.rules[0].method, Some(s("GET")));
        },
        _ => panic!("expected router"),
    }
    let filter = flow.instances.get(&s("filter-r1-rule-0-0")).unwrap();
    assert!(matches!(filter.class, InstanceClass::RequestHeaderModify));
    match &filter.config {
        InstanceConfig::HeaderModify { set, extend, remove } => {
            assert_eq!(set, &vec![(s("x-a"), s("1"))]);
            assert!(extend.is_empty());
            assert_eq!(remove, &vec![s("x-drop")]);
        },
        _ => panic!("expected header modify"),
    }
    let proxy = flow.filters.get(&s("r1-rule-0-backend-0-app")).unwrap();
    match &proxy.config {
        InstanceConfig::ReverseProxy { backend, scheme } => {
            assert_eq!(backend, "app:8080");
            assert_eq!(scheme, "k8s");
        },
        _ => panic!("expected reverse proxy"),
    }
}

#[test]
fn no_http_service_without_http_listeners() {
    let data = gateway_data(vec![listener("raw", 9000, "TCP", None)]);
    let mut b = ServiceBuilder::new();
    assert_eq!(b.build_http_service(&data), None);
    assert_eq!(b.config.tcp_services.len(), 0);
    assert_eq!(b.config.tcp_listeners.len(), 0);
}

#[test]
fn routes_without_hostnames_replace_star_and_shared_hostnames_merge() {
    let mut routes: KeyedVec<String, HTTPRoute> = KeyedVec::new();
    routes.insert(s("a"), api_route(None));
    routes.insert(s("b"), api_route(None));
    routes.insert(s("c"), api_route(Some(vec![s("h.example")])));
    routes.insert(s("d"), api_route(Some(vec![s("h.example")])));
    let config = HttpGatewayBuilder::new().build(&routes);
    let router = config.flow.nodes.get(&s("router")).unwrap();
    match &router.config {
        InstanceConfig::Router { outputs, hostname } => {
            assert_eq!(outputs.len(), 4);
            let star = hostname.get(&s("*")).unwrap();
            assert_eq!(star.entries.len(), 1);
            assert_eq!(star.entries[0].1.target, "b-rule-0");
            let h = hostname.get(&s("h.example")).unwrap();
            assert_eq!(h.entries.len(), 2);
            assert_eq!(h.entries[0].1.target, "c-rule-0");
            assert_eq!(h.entries[1].1.target, "d-rule-0");
        },
        _ => panic!("expected router"),
    }
}

#[test]
fn rule_without_backends_goes_to_error_page() {
    let mut b = HttpGatewayBuilder::new();
    let mut tree = PathTree::new();
    let rule = HTTPRouteRules { name: Some(s("named")), backend_refs: None, filters: None, matches: None };
    let (port, out) = b.build_rule(&rule, "r-named", &mut tree);
    assert_eq!(port, "r-named");
    assert_eq!(out.target.id, "internal-error-500-page");
    assert!(out.filters.is_empty());
    assert!(tree.entries.is_empty());
}

#[test]
fn several_backends_get_a_balancer() {
    let mut b = HttpGatewayBuilder::new();
    let backends = vec![http_backend("a", None, None, None), http_backend("b", Some("ns"), Some(81), Some(5))];
    let t = b.build_backend_instance_from_k8s_backend_ref("t", &backends);
    assert_eq!(t.id, "t-balancer");
    let balancer = b.config.flow.filters.get(&s("t-balancer")).unwrap();
    match &balancer.config {
        InstanceConfig::Balancer { strategy, weights } => {
            assert_eq!(strategy, "RoundRobin");
            assert_eq!(weights.get(&s("backend-0-a")), Some(&1));
            assert_eq!(weights.get(&s("backend-1-b.ns")), Some(&5));
        },
        _ => panic!("expected balancer"),
    }
    match &b.config.flow.filters.get(&s("t-backend-1-b.ns")).unwrap().config {
        InstanceConfig::ReverseProxy { backend, .. } => assert_eq!(backend, "b.ns:81"),
        _ => panic!("expected proxy"),
    }
    match &b.config.flow.filters.get(&s("t-backend-0-a")).unwrap().config {
        InstanceConfig::ReverseProxy { backend, .. } => assert_eq!(backend, "a"),
        _ => panic!("expected proxy"),
    }
}

#[test]
fn rule_matches_share_buckets_by_path_key() {
    let mut b = HttpGatewayBuilder::new();
    let mut tree = PathTree::new();
    let regex_header = HTTPRouteRulesMatchesHeaders {
        name: s("x-env"), kind: Some(HTTPRouteRulesMatchesValueType::RegularExpression), value: s("^prod"),
    };
    let m2 = HTTPRouteRulesMatches {
        path: Some(HTTPRouteRulesMatchesPath { kind: Some(HTTPRouteRulesMatchesPathType::PathPrefix), value: Some(s("/a")) }),
        headers: Some(vec![regex_header]),
        query_params: None,
        method: None,
    };
    let rule = HTTPRouteRules {
        name: None,
        backend_refs: None,
        filters: None,
        matches: Some(vec![prefix_match("/a/", None), prefix_match("/b", None), m2]),
    };
    b.build_rule(&rule, "t", &mut tree);
    assert_eq!(tree.entries.len(), 2);
    assert_eq!(tree.entries[0].0, "/a{*rest}");
    assert_eq!(tree.entries[0].1.rules.len(), 2);
    assert!(matches!(&tree.entries[0].1.rules[1].headers[0].header_value, RegexOrExact::Regex(v) if v == "^prod"));
    assert_eq!(tree.entries[1].0, "/b{*rest}");
}

#[test]
fn path_keys() {
    let exact = HTTPRouteRulesMatches {
        path: Some(HTTPRouteRulesMatchesPath { kind: Some(HTTPRouteRulesMatchesPathType::Exact), value: Some(s("/a/")) }),
        headers: None, query_params: None, method: None,
    };
    assert_eq!(match_key_of(&exact), "/a/");
    let regex = HTTPRouteRulesMatches {
        path: Some(HTTPRouteRulesMatchesPath { kind: Some(HTTPRouteRulesMatchesPathType::RegularExpression), value: Some(s("^/x")) }),
        headers: None, query_params: None, method: None,
    };
    assert_eq!(match_key_of(&regex), "^/x");
    let default = HTTPRouteRulesMatches { path: None, headers: None, query_params: None, method: None };
    assert_eq!(match_key_of(&default), "{*rest}");
    assert_eq!(match_key_of(&prefix_match("/p//", None)), "/p{*rest}");
}

#[test]
fn methods_and_dedup() {
    assert_eq!(k8s_method_to_http_method(&HTTPRouteRulesMatchesMethod::Patch), "PATCH");
    assert_eq!(k8s_method_to_http_method(&HTTPRouteRulesMatchesMethod::Options), "OPTIONS");
    assert_eq!(dedup_texts(&vec![s("b"), s("a"), s("b")]), vec![s("b"), s("a")]);
}

#[test]
fn filter_ids_and_filters() {
    assert_eq!(filter_id("r-rule-0", 3), "filter-r-rule-0-3");
    let mirror = HTTPRequestMirror {
        backend_ref: MirrorBackendRef { name: s("shadow"), namespace: Some(s("ns")), port: Some(80) },
        fraction: Some(MirrorFraction { numerator: 3, denominator: Some(2) }),
        percent: None,
    };
    match build_request_mirror(&mirror).config {
        InstanceConfig::Mirror { target, possibility } => {
            assert_eq!(target, "shadow.ns.port80");
            assert_eq!(possibility, Some(s("2/2")));
        },
        _ => panic!("expected mirror"),
    }
    let mirror = HTTPRequestMirror {
        backend_ref: MirrorBackendRef { name: s("shadow"), namespace: None, port: None },
        fraction: None,
        percent: Some(150),
    };
    match build_request_mirror(&mirror).config {
        InstanceConfig::Mirror { possibility, .. } => assert_eq!(possibility, Some(s("100%"))),
        _ => panic!("expected mirror"),
    }
    let redirect = HTTPRequestRedirect {
        status_code: Some(301),
        scheme: Some(HTTPRedirectScheme::Https),
        path: Some(HTTPPathModifier { kind: HTTPPathModifierType::ReplacePrefixMatch, replace_full_path: None, replace_prefix_match: Some(s("/x")) }),
        hostname: Some(s("h")),
    };
    match build_redirect(&redirect).config {
        InstanceConfig::Redirect { status_code, to } => {
            assert_eq!(status_code, Some(301));
            assert_eq!(to, "https://h/x/{*rest}");
        },
        _ => panic!("expected redirect"),
    }
    let no_host = HTTPRequestRedirect { status_code: None, scheme: None, path: None, hostname: None };
    match build_redirect(&no_host).config {
        InstanceConfig::Redirect { to, .. } => assert_eq!(to, ""),
        _ => panic!("expected redirect"),
    }
    let rewrite = HTTPURLRewrite {
        path: Some(HTTPPathModifier { kind: HTTPPathModifierType::ReplaceFullPath, replace_full_path: None, replace_prefix_match: None }),
        hostname: Some(s("h2")),
    };
    match build_url_rewrite(&rewrite).config {
        InstanceConfig::UrlRewrite { path, hostname } => {
            assert_eq!(path, Some(s("/")));
            assert_eq!(hostname, Some(s("h2")));
        },
        _ => panic!("expected rewrite"),
    }
    let ext = HTTPRouteFilter {
        kind: HTTPRouteFilterType::ExtensionRef,
        request_header_modifier: None, response_header_modifier: None, request_mirror: None,
        request_redirect: None, url_rewrite: None,
    };
    assert!(matches!(build_filter_instance_from_k8s_filter(&ext).config, InstanceConfig::Empty));
}

#[test]
fn path_trees_merge_in_order() {
    let mut a = PathTree::new();
    a.insert(s("/x"), RuleBucket { target: s("t1"), rules: vec![] });
    let mut b = PathTree::new();
    b.insert(s("/y"), RuleBucket { target: s("t2"), rules: vec![] });
    let copy = b.duplicate();
    a.merge(b);
    assert_eq!(a.entries.len(), 2);
    assert_eq!(a.entries[1].0, "/y");
    assert_eq!(copy.entries[0].1.target, "t2");
}

#[test]
fn route_outputs_are_named_after_rules() {
    let mut b = HttpGatewayBuilder::new();
    let mut router = HttpBuildingRouter { outputs: KeyedVec::new(), hostname: KeyedVec::new() };
    let route = HTTPRoute {
        hostnames: None,
        rules: Some(vec![
            HTTPRouteRules { name: Some(s("main")), backend_refs: None, filters: None, matches: None },
            HTTPRouteRules { name: None, backend_refs: None, filters: None, matches: None },
        ]),
    };
    b.build_route("r", &route, &mut router);
    assert!(router.outputs.contains_key(&s("r-main")));
    assert!(router.outputs.contains_key(&s("r-rule-1")));
    assert!(router.hostname.contains_key(&s("*")));
}

#[test]
fn resource_builder_names_router_after_gateway() {
    let mut routes: KeyedVec<String, HTTPRoute> = KeyedVec::new();
    routes.insert(s("r1"), api_route(Some(vec![s("h")])));
    routes.insert(s("r2"), api_route(Some(vec![s("h")])));
    let data = resource_k8s::K8sGatewayGatewayData { gateway: Gateway { name: s("gw"), listeners: vec![listener("web", 80, "HTTP", None)] }, http_routes: routes };
    let config = resource_k8s::HttpGatewayBuilder::new().build_router_from_k8s(&data);
    assert!(config.flow.instances.contains_key(&s("filter-r1-rule-0-0")));
    let router = config.flow.instances.get(&s("gw")).unwrap();
    match &router.config {
        InstanceConfig::Router { outputs, hostname } => {
            assert_eq!(outputs.get(&s("r1-rule-0")).unwrap().filters, vec![s("filter-r1-rule-0-0")]);
            let tree = hostname.get(&s("h")).unwrap();
            assert_eq!(tree.entries.len(), 1);
            assert_eq!(tree.entries[0].1.target, "r2-rule-0");
        },
        _ => panic!("expected router"),
    }
    assert_eq!(config.flow.nodes.len(), 0);
    assert_eq!(resource_k8s::filter_id("r", "x", 2), "filter-r-x-2");
    let mut sb = resource_k8s::ServiceBuilder::new();
    let name = sb.build_http_service(&data);
    assert_eq!(name, "http-gateway-gw");
    assert_eq!(sb.config.tcp_listeners.len(), 1);
    assert_eq!(resource_k8s::gateway_controller_name_text(), "switchboard.io/gateway-controller");
    assert_eq!(resource_k8s::K8sGatewayResourceConfig::default().gateway_namespace, "default");
}

#[test]
fn gathering_keeps_managed_gateways_and_their_routes() {
    let classes = vec![
        GatewayClassInfo { name: s("sb"), controller_name: s("switchboard.io/gateway-controller") },
        GatewayClassInfo { name: s("other"), controller_name: s("example.com/ctl") },
    ];
    let gateways = vec![
        GatewayInfo { name: s("g1"), class_name: s("sb") },
        GatewayInfo { name: s("g2"), class_name: s("other") },
        GatewayInfo { name: s("g1"), class_name: s("sb") },
    ];
    let http = vec![
        RouteInfo { name: s("r1"), parents: vec![s("g1")] },
        RouteInfo { name: s("r2"), parents: vec![s("g2"), s("g1")] },
        RouteInfo { name: s("r1"), parents: vec![s("g1")] },
    ];
    let gathered = gather_gateways("switchboard.io/gateway-controller", &classes, &gateways, &http, &vec![], &vec![]);
    assert_eq!(gathered.len(), 1);
    let g1 = gathered.get(&s("g1")).unwrap();
    assert_eq!(g1.gateway, 2);
    assert_eq!(g1.http_routes.get(&s("r1")), Some(&2));
    assert_eq!(g1.http_routes.get(&s("r2")), Some(&1));
    assert_eq!(g1.tcp_routes.len(), 0);
    assert!(gathered.get(&s("g2")).is_none());
}

#[test]
fn gateway_services_for_each_gateway() {
    let mut gws: KeyedVec<String, K8sGatewayGatewayData> = KeyedVec::new();
    let mut data = gateway_data(vec![listener("web", 80, "HTTP", None)]);
    data.http_routes.insert(s("r"), api_route(None));
    gws.insert(s("gw"), data);
    let mut b = ServiceBuilder::new();
    b.build_gateway_services(&gws);
    assert!(b.config.tcp_services.contains_key(&s("http-gateway-gw")));
}

#[test]
fn passthrough_server_names_follow_route_name_order() {
    let mut data = gateway_data(vec![
        listener("pt", 443, "TLS", Some(GatewayListenerTls { mode: Some(GatewayListenersTlsMode::Passthrough), certificate_refs: None })),
    ]);
    data.tls_routes.insert(s("b"), TLSRoute {
        parent_refs: Some(vec![parent("gw")]),
        hostnames: vec![s("h.example.com")],
        rules: vec![RouteRule { backend_refs: vec![backend("second", Some("default"), Some(443))] }],
    });
    data.tls_routes.insert(s("a"), TLSRoute {
        parent_refs: Some(vec![parent("gw")]),
        hostnames: vec![s("h.example.com")],
        rules: vec![RouteRule { backend_refs: vec![backend("first", Some("default"), Some(443))] }],
    });
    let names: Vec<String> = data.tls_routes.entries().iter().map(|e| e.0.clone()).collect();
    assert_eq!(names, vec![s("a"), s("b")]);
    let mut b = ServiceBuilder::new();
    b.build_tcp_services(&data);
    let pt = b.config.tcp_services.get(&s("tcp-gateway-gw-pt")).unwrap();
    match &pt.config {
        Some(ServiceConfigValue::Tcp(c)) => match &c.strategy_config {
            TlsStrategyConfig::Passthrough(m) => match m.get(&s("h.example.com")) {
                Some(Outbound::Single(e)) => assert_eq!(e.host, "second.default"),
                _ => panic!("expected one endpoint"),
            },
            _ => panic!("expected passthrough"),
        },
        _ => panic!("expected tcp config"),
    }
}

#[test]
fn gathering_needs_a_config_and_a_client() {
    let classes = vec![GatewayClassInfo { name: s("sb"), controller_name: s("switchboard.io/gateway-controller") }];
    let gateways = vec![GatewayInfo { name: s("g1"), class_name: s("sb") }];
    let http = vec![RouteInfo { name: s("r1"), parents: vec![s("g1")] }];
    let none = resource_k8s::gather_k8s_gateway_config(None, Some((&classes, &gateways, &http))).unwrap();
    assert_eq!(none.len(), 0);
    let config = resource_k8s::K8sGatewayResourceConfig::default();
    assert!(matches!(
        resource_k8s::gather_k8s_gateway_config(Some(&config), None),
        Err(resource_k8s::K8sGatewayResourceError::NoK8sClient)
    ));
    let gathered = resource_k8s::gather_k8s_gateway_config(Some(&config), Some((&classes, &gateways, &http))).unwrap();
    assert_eq!(gathered.len(), 1);
    assert_eq!(gathered.get(&s("g1")).unwrap().http_routes.get(&s("r1")), Some(&0));
}
