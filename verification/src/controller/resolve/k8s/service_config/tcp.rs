//! TCP and TLS listeners of a gateway.
use vstd::prelude::*;
use crate::keyed::KeyedVec;
use crate::text::{concat3, concat4, concat5, owned, same_text, texts};
use crate::controller::resolve::k8s::service_config::{
    BalancerStrategyConfig, ConfigView, GatewayListener, GatewayListenersTlsMode, K8sGatewayGatewayData,
    K8sResource, Listener, ServiceConfig, ServiceConfigValue, ServiceConfigView, TCPRoute, TLSRoute, TcpConfig,
    TcpConfigView, TcpRoute, TcpServiceConfig, Tls, TlsOptions, TlsStrategyConfig, opt_text, outbound_map_view,
    rule_backends, service_config_view, service_view, listener_view, route_view, tls_view, target_name,
    target_name_text,
};
use match_parent::{attaches, parent_refs_attach_listener};
use outbound::{
    EndpointView, Outbound, OutboundEndpoint, OutboundView, build_tcp_outbound_from_tcproute,
    build_tcp_outbound_from_tlsroute, endpoint_map_view, endpoint_view, endpoints_of, outbound_from_endpoints,
    outbound_of,
};

pub mod match_parent;
pub mod outbound;

verus! {

/// The outbound of a TLS route.
pub open spec fn tls_route_outbound(r: TLSRoute) -> Option<OutboundView> {
    outbound_of(endpoints_of(rule_backends(r.rules@)))
}

/// The outbound of a TCP route.
pub open spec fn tcp_route_outbound(r: TCPRoute) -> Option<OutboundView> {
    outbound_of(endpoints_of(rule_backends(r.rules@)))
}

/// Maps each host name of `hs` to `o`.
pub open spec fn insert_hosts(m: Map<Seq<char>, OutboundView>, hs: Seq<String>, o: OutboundView) -> Map<Seq<char>, OutboundView>
    decreases hs.len(),
{
    if hs.len() == 0 {
        m
    } else {
        insert_hosts(m, hs.drop_last(), o).insert(hs.last()@, o)
    }
}

/// The server-name map of a passthrough listener: for each attached TLS route with an
/// outbound, in order, each of its host names mapped to that outbound.
pub open spec fn sni_fold(routes: Seq<(String, TLSRoute)>, gw: Seq<char>, ln: Seq<char>, port: u16) -> Map<Seq<char>, OutboundView>
    decreases routes.len(),
{
    if routes.len() == 0 {
        Map::empty()
    } else {
        let m = sni_fold(routes.drop_last(), gw, ln, port);
        let r = routes.last().1;
        if attaches(r.parent_refs, gw, ln, port) && tls_route_outbound(r) is Some {
            insert_hosts(m, r.hostnames@, tls_route_outbound(r)->0)
        } else {
            m
        }
    }
}

/// Adds the endpoints of an outbound to a named map: a single endpoint under its host and
/// port, a map entry by entry.
pub open spec fn merge_outbound(m: Map<Seq<char>, EndpointView>, o: OutboundView) -> Map<Seq<char>, EndpointView> {
    match o {
        OutboundView::Single(e) => m.insert(target_name_text(e.0, None, Some(e.1)), e),
        OutboundView::NamedMap(n) => m.union_prefer_right(n),
    }
}

/// The endpoints of a terminating listener: those of every attached TCP route, in order.
pub open spec fn merged_fold(routes: Seq<(String, TCPRoute)>, gw: Seq<char>, ln: Seq<char>, port: u16) -> Map<Seq<char>, EndpointView>
    decreases routes.len(),
{
    if routes.len() == 0 {
        Map::empty()
    } else {
        let m = merged_fold(routes.drop_last(), gw, ln, port);
        let r = routes.last().1;
        if attaches(r.parent_refs, gw, ln, port) && tcp_route_outbound(r) is Some {
            merge_outbound(m, tcp_route_outbound(r)->0)
        } else {
            m
        }
    }
}

pub open spec fn tcp_service_name(gw: Seq<char>, ln: Seq<char>) -> Seq<char> {
    "tcp-gateway-"@ + gw + "-"@ + ln
}

pub open spec fn listener_tls_name(gw: Seq<char>, ln: Seq<char>) -> Seq<char> {
    "k8s-gateway-"@ + gw + "-listener-"@ + ln + "-tls"@
}

/// The listener passes TLS through (its mode says so; terminating is the default).
pub open spec fn is_passthrough(l: GatewayListener) -> bool {
    l.tls is Some && l.tls->0.mode matches Some(GatewayListenersTlsMode::Passthrough)
}

/// What one listener adds to the configuration and to the list of service names.
pub open spec fn tcp_listener_step(
    c: ServiceConfigView,
    names: Seq<Seq<char>>,
    gw: Seq<char>,
    tcp_routes: Seq<(String, TCPRoute)>,
    tls_routes: Seq<(String, TLSRoute)>,
    l: GatewayListener,
) -> (ServiceConfigView, Seq<Seq<char>>) {
    let ln = l.name@;
    let port = l.port as u16;
    let name = tcp_service_name(gw, ln);
    if l.protocol@ != "TLS"@ {
        (c, names)
    } else if is_passthrough(l) {
        let sni = sni_fold(tls_routes, gw, ln, port);
        if sni.dom().len() == 0 {
            (c, names)
        } else {
            (ServiceConfigView {
                services: c.services.insert(name, ("tcp"@, name,
                    Some(ConfigView::Tcp(TcpConfigView::Passthrough(sni))),
                    Some("K8s TCP Gateway passthrough for "@ + gw + " listener "@ + ln))),
                listeners: c.listeners.insert(port, (port, Some("tls passthrough listener "@ + ln + " for "@ + gw))),
                routes: c.routes.insert(port, (port, name, None)),
                tls: c.tls,
            }, names.push(name))
        }
    } else {
        match outbound_of(merged_fold(tcp_routes, gw, ln, port)) {
            None => (c, names),
            Some(o) => if l.tls is None || l.tls->0.certificate_refs is None {
                (c, names)
            } else {
                let refs = l.tls->0.certificate_refs->0@;
                let tls_name = listener_tls_name(gw, ln);
                (ServiceConfigView {
                    services: c.services.insert(name, ("tcp"@, name,
                        Some(ConfigView::Tcp(TcpConfigView::Terminate(o))),
                        Some("K8s TCP Gateway terminate for "@ + gw + " listener "@ + ln))),
                    listeners: c.listeners.insert(port, (port, Some("tls terminate listener "@ + ln + " for "@ + gw))),
                    routes: c.routes.insert(port, (port, name, if refs.len() > 0 { Some(tls_name) } else { None })),
                    tls: if refs.len() > 0 {
                        c.tls.insert(tls_name, (opt_text(refs[0].namespace), refs[0].name@))
                    } else {
                        c.tls
                    },
                }, names.push(name))
            },
        }
    }
}

/// The configuration and service names after the listeners `ls`, in order.
pub open spec fn tcp_services_fold(
    c: ServiceConfigView,
    gw: Seq<char>,
    tcp_routes: Seq<(String, TCPRoute)>,
    tls_routes: Seq<(String, TLSRoute)>,
    ls: Seq<GatewayListener>,
) -> (ServiceConfigView, Seq<Seq<char>>)
    decreases ls.len(),
{
    if ls.len() == 0 {
        (c, Seq::empty())
    } else {
        let prev = tcp_services_fold(c, gw, tcp_routes, tls_routes, ls.drop_last());
        tcp_listener_step(prev.0, prev.1, gw, tcp_routes, tls_routes, ls.last())
    }
}

/// The server-name map of a passthrough listener.
fn passthrough_sni_map(gateway: &K8sGatewayGatewayData, gw: &str, ln: &str, port: u16) -> (m: KeyedVec<String, Outbound>)
    ensures
        outbound_map_view(m.map()) == sni_fold(gateway.tls_routes.seq(), gw@, ln@, port),
{
    let routes = gateway.tls_routes.entries();
    let mut m: KeyedVec<String, Outbound> = KeyedVec::new();
    let mut i: usize = 0;
    while i < routes.len()
        invariant
            i <= routes@.len(),
            routes@ == gateway.tls_routes.seq(),
            outbound_map_view(m.map()) == sni_fold(routes@.take(i as int), gw@, ln@, port),
        decreases routes@.len() - i,
    {
        let route = &routes[i].1;
        proof {
            let t = routes@.take(i + 1);
            assert(t.drop_last() =~= routes@.take(i as int));
            assert(t.last() == routes@[i as int]);
        }
        if parent_refs_attach_listener(&route.parent_refs, gw, ln, port) {
            match build_tcp_outbound_from_tlsroute(route) {
                Some(o) => {
                    let hs = &route.hostnames;
                    let ghost base = outbound_map_view(m.map());
                    let mut j: usize = 0;
                    while j < hs.len()
                        invariant
                            j <= hs@.len(),
                            outbound_map_view(m.map()) == insert_hosts(base, hs@.take(j as int), o@),
                        decreases hs@.len() - j,
                    {
                        let ghost before = m.map();
                        m.insert(hs[j].clone(), o.duplicate());
                        proof {
                            let t = hs@.take(j + 1);
                            assert(t.drop_last() =~= hs@.take(j as int));
                            assert(outbound_map_view(m.map()) =~= outbound_map_view(before).insert(hs@[j as int]@, o@));
                        }
                        j = j + 1;
                    }
                    assert(hs@.take(hs@.len() as int) =~= hs@);
                },
                None => {},
            }
        }
        i = i + 1;
    }
    assert(routes@.take(routes@.len() as int) =~= routes@);
    m
}

/// The merged endpoints of a terminating listener.
fn terminate_endpoints(gateway: &K8sGatewayGatewayData, gw: &str, ln: &str, port: u16) -> (m: KeyedVec<String, OutboundEndpoint>)
    ensures
        endpoint_map_view(m.map()) == merged_fold(gateway.tcp_routes.seq(), gw@, ln@, port),
{
    let routes = gateway.tcp_routes.entries();
    let mut m: KeyedVec<String, OutboundEndpoint> = KeyedVec::new();
    let mut i: usize = 0;
    while i < routes.len()
        invariant
            i <= routes@.len(),
            routes@ == gateway.tcp_routes.seq(),
            endpoint_map_view(m.map()) == merged_fold(routes@.take(i as int), gw@, ln@, port),
        decreases routes@.len() - i,
    {
        let route = &routes[i].1;
        proof {
            let t = routes@.take(i + 1);
            assert(t.drop_last() =~= routes@.take(i as int));
            assert(t.last() == routes@[i as int]);
        }
        if parent_refs_attach_listener(&route.parent_refs, gw, ln, port) {
            match build_tcp_outbound_from_tcproute(route) {
                Some(Outbound::Single(e)) => {
                    let ghost before = m.map();
                    let key = target_name(e.host.as_str(), None, Some(e.port));
                    m.insert(key, e);
                    assert(endpoint_map_view(m.map()) =~= endpoint_map_view(before).insert(
                        target_name_text(endpoint_view(e).0, None, Some(endpoint_view(e).1)), endpoint_view(e)));
                },
                Some(Outbound::NamedMap(n)) => {
                    let es = n.entries();
                    let ghost base = endpoint_map_view(m.map());
                    let mut j: usize = 0;
                    while j < es.len()
                        invariant
                            j <= es@.len(),
                            crate::keyed::entry_keys(es@).no_duplicates(),
                            endpoint_map_view(m.map()) == base.union_prefer_right(endpoint_map_view(crate::keyed::entries_map(es@.take(j as int)))),
                        decreases es@.len() - j,
                    {
                        let ghost before = m.map();
                        m.insert(es[j].0.clone(), es[j].1.duplicate());
                        proof {
                            let t = es@.take(j + 1);
                            assert(t =~= es@.take(j as int).push(es@[j as int]));
                            assert(crate::keyed::entry_keys(t).no_duplicates()) by {
                                assert forall|x: int, y: int| 0 <= x < crate::keyed::entry_keys(t).len() && 0 <= y < crate::keyed::entry_keys(t).len() && x != y
                                    implies crate::keyed::entry_keys(t)[x] != crate::keyed::entry_keys(t)[y] by {
                                    assert(crate::keyed::entry_keys(es@)[x] != crate::keyed::entry_keys(es@)[y]);
                                }
                            }
                            crate::keyed::lemma_entries_map_push(es@.take(j as int), es@[j as int]);
                            let k = es@[j as int].0@;
                            let ev = endpoint_view(es@[j as int].1);
                            assert(endpoint_map_view(m.map()) =~= endpoint_map_view(before).insert(k, ev));
                            assert(endpoint_map_view(crate::keyed::entries_map(t)) =~= endpoint_map_view(crate::keyed::entries_map(es@.take(j as int))).insert(k, ev));
                            assert(endpoint_map_view(m.map()) =~= base.union_prefer_right(endpoint_map_view(crate::keyed::entries_map(t))));
                        }
                        j = j + 1;
                    }
                    proof {
                        assert(es@.take(es@.len() as int) =~= es@);
                    }
                },
                None => {},
            }
        }
        i = i + 1;
    }
    assert(routes@.take(routes@.len() as int) =~= routes@);
    m
}

/// Builds the configuration of a gateway's listeners, one service after another.
pub struct ServiceBuilder {
    pub config: ServiceConfig,
}

impl ServiceBuilder {
    /// A builder with an empty configuration.
    pub fn new() -> (b: Self)
        ensures
            b.config.tcp_services.map() == Map::<Seq<char>, TcpServiceConfig>::empty(),
            b.config.tcp_listeners.map() == Map::<u16, Listener>::empty(),
            b.config.tcp_routes.map() == Map::<u16, TcpRoute>::empty(),
            b.config.tls.map() == Map::<Seq<char>, Tls>::empty(),
    {
        ServiceBuilder { config: ServiceConfig::new() }
    }

    /// Adds a `tcp` service, listener and route for each TLS listener of the gateway that has
    /// somewhere to send traffic: by server name for passthrough listeners (from the attached
    /// TLS routes), to the merged endpoints of the attached TCP routes for terminating ones
    /// (those with certificate references; the first one becomes the listener's certificate).
    /// Returns the names of the services added, in listener order.
    pub fn build_tcp_services(&mut self, gateway: &K8sGatewayGatewayData) -> (names: Vec<String>)
        ensures
            (service_config_view(final(self).config), texts(names@)) == tcp_services_fold(
                service_config_view(old(self).config), gateway.gateway.name@, gateway.tcp_routes.seq(),
                gateway.tls_routes.seq(), gateway.gateway.listeners@),
    {
        let gw = gateway.gateway.name.as_str();
        let listeners = &gateway.gateway.listeners;
        let ghost start = service_config_view(self.config);
        let mut names: Vec<String> = Vec::new();
        let mut i: usize = 0;
        while i < listeners.len()
            invariant
                i <= listeners@.len(),
                listeners@ == gateway.gateway.listeners@,
                gw@ == gateway.gateway.name@,
                (service_config_view(self.config), texts(names@)) == tcp_services_fold(start, gw@,
                    gateway.tcp_routes.seq(), gateway.tls_routes.seq(), listeners@.take(i as int)),
            decreases listeners@.len() - i,
        {
            let listener = &listeners[i];
            let ghost c0 = service_config_view(self.config);
            let ghost n0 = texts(names@);
            proof {
                let t = listeners@.take(i + 1);
                assert(t.drop_last() =~= listeners@.take(i as int));
                assert(t.last() == listeners@[i as int]);
            }
            let ghost expected = tcp_listener_step(c0, n0, gw@, gateway.tcp_routes.seq(), gateway.tls_routes.seq(), *listener);
            if same_text(listener.protocol.as_str(), "TLS") {
                let port: u16 = listener.port as u16;
                let ln = listener.name.as_str();
                let passthrough = match &listener.tls {
                    Some(t) => match &t.mode {
                        Some(GatewayListenersTlsMode::Passthrough) => true,
                        _ => false,
                    },
                    None => false,
                };
                if passthrough {
                    let sni = passthrough_sni_map(gateway, gw, ln, port);
                    assert(outbound_map_view(sni.map()).dom() =~= sni.map().dom());
                    if !sni.is_empty() {
                        let service_name = concat4("tcp-gateway-", gw, "-", ln);
                        let svc = TcpServiceConfig {
                            provider: owned("tcp"),
                            name: service_name.clone(),
                            config: Some(ServiceConfigValue::Tcp(TcpConfig {
                                strategy_config: TlsStrategyConfig::Passthrough(sni),
                                balancer: BalancerStrategyConfig::RoundRobin,
                            })),
                            description: Some(concat4("K8s TCP Gateway passthrough for ", gw, " listener ", ln)),
                        };
                        self.config.tcp_services.insert(service_name.clone(), svc);
                        self.config.tcp_listeners.insert(port, Listener {
                            bind: port,
                            description: Some(concat4("tls passthrough listener ", ln, " for ", gw)),
                        });
                        self.config.tcp_routes.insert(port, TcpRoute { bind: port, service: service_name.clone(), tls: None });
                        names.push(service_name);
                        proof {
                            assert(service_config_view(self.config).services =~= expected.0.services);
                            assert(service_config_view(self.config).listeners =~= expected.0.listeners);
                            assert(service_config_view(self.config).routes =~= expected.0.routes);
                            assert(service_config_view(self.config).tls =~= expected.0.tls);
                            assert(texts(names@) =~= expected.1);
                        }
                    }
                } else {
                    let merged = terminate_endpoints(gateway, gw, ln, port);
                    match outbound_from_endpoints(merged) {
                        None => {},
                        Some(outbound) => {
                            match &listener.tls {
                                None => {},
                                Some(tls) => match &tls.certificate_refs {
                                    None => {},
                                    Some(refs) => {
                                        let service_name = concat4("tcp-gateway-", gw, "-", ln);
                                        let mut tls_name: Option<String> = None;
                                        if refs.len() > 0 {
                                            let r0 = &refs[0];
                                            let name = concat5("k8s-gateway-", gw, "-listener-", ln, "-tls");
                                            self.config.tls.insert(name.clone(), Tls {
                                                resolver: K8sResource::new(r0.namespace.clone(), r0.name.clone()),
                                                options: TlsOptions {},
                                            });
                                            tls_name = Some(name);
                                        }
                                        let svc = TcpServiceConfig {
                                            provider: owned("tcp"),
                                            name: service_name.clone(),
                                            config: Some(ServiceConfigValue::Tcp(TcpConfig {
                                                strategy_config: TlsStrategyConfig::Terminate(outbound),
                                                balancer: BalancerStrategyConfig::RoundRobin,
                                            })),
                                            description: Some(concat4("K8s TCP Gateway terminate for ", gw, " listener ", ln)),
                                        };
                                        self.config.tcp_services.insert(service_name.clone(), svc);
                                        self.config.tcp_listeners.insert(port, Listener {
                                            bind: port,
                                            description: Some(concat4("tls terminate listener ", ln, " for ", gw)),
                                        });
                                        self.config.tcp_routes.insert(port, TcpRoute { bind: port, service: service_name.clone(), tls: tls_name });
                                        names.push(service_name);
                                        proof {
                                            assert(service_config_view(self.config).services =~= expected.0.services);
                                            assert(service_config_view(self.config).listeners =~= expected.0.listeners);
                                            assert(service_config_view(self.config).routes =~= expected.0.routes);
                                            assert(service_config_view(self.config).tls =~= expected.0.tls);
                                            assert(texts(names@) =~= expected.1);
                                        }
                                    },
                                },
                            }
                        },
                    }
                }
            }
            proof {
                assert(service_config_view(self.config) == expected.0);
                assert(texts(names@) == expected.1);
            }
            i = i + 1;
        }
        proof {
            assert(listeners@.take(listeners@.len() as int) =~= listeners@);
        }
        names
    }
}

/// Every service name that building the TCP services returns names a service of the
/// configuration built.
pub proof fn lemma_tcp_service_names_registered(
    c: ServiceConfigView,
    gw: Seq<char>,
    tcp_routes: Seq<(String, TCPRoute)>,
    tls_routes: Seq<(String, TLSRoute)>,
    ls: Seq<GatewayListener>,
)
    ensures
        forall|k: int| 0 <= k < tcp_services_fold(c, gw, tcp_routes, tls_routes, ls).1.len()
            ==> tcp_services_fold(c, gw, tcp_routes, tls_routes, ls).0.services.dom().contains(
                #[trigger] tcp_services_fold(c, gw, tcp_routes, tls_routes, ls).1[k]),
    decreases ls.len(),
{
    if ls.len() > 0 {
        let prev = tcp_services_fold(c, gw, tcp_routes, tls_routes, ls.drop_last());
        let r = tcp_services_fold(c, gw, tcp_routes, tls_routes, ls);
        lemma_tcp_service_names_registered(c, gw, tcp_routes, tls_routes, ls.drop_last());
        assert(r == tcp_listener_step(prev.0, prev.1, gw, tcp_routes, tls_routes, ls.last()));
        let name = tcp_service_name(gw, ls.last().name@);
        assert(r.1 == prev.1 || (r.1 == prev.1.push(name) && r.0.services.dom().contains(name)));
        assert(forall|x: Seq<char>| prev.0.services.dom().contains(x) ==> r.0.services.dom().contains(x));
        assert forall|k: int| 0 <= k < r.1.len() implies r.0.services.dom().contains(#[trigger] r.1[k]) by {
            if k < prev.1.len() {
                assert(r.1[k] == prev.1[k]);
                assert(prev.0.services.dom().contains(prev.1[k]));
            }
        }
    }
}

/// What mapping host names adds: each name of `hs` goes to `o`; other names keep their
/// entry in `m`.
pub proof fn lemma_insert_hosts(m: Map<Seq<char>, OutboundView>, hs: Seq<String>, o: OutboundView, h: Seq<char>)
    ensures
        insert_hosts(m, hs, o).dom().contains(h) <==> (m.dom().contains(h) || texts(hs).contains(h)),
        texts(hs).contains(h) ==> insert_hosts(m, hs, o)[h] == o,
        !texts(hs).contains(h) && m.dom().contains(h) ==> insert_hosts(m, hs, o)[h] == m[h],
    decreases hs.len(),
{
    if hs.len() > 0 {
        let p = hs.drop_last();
        lemma_insert_hosts(m, p, o, h);
        assert(texts(hs) =~= texts(p).push(hs.last()@));
        crate::seqs::lemma_push_contains(texts(p), hs.last()@);
    } else {
        assert(texts(hs).len() == 0);
    }
}

/// A TLS route serves a passthrough listener by server name: it attaches to the listener
/// and has somewhere to send traffic.
pub open spec fn serves_by_name(r: TLSRoute, gw: Seq<char>, ln: Seq<char>, port: u16) -> bool {
    attaches(r.parent_refs, gw, ln, port) && tls_route_outbound(r) is Some
}

/// The server-name map of a passthrough listener holds exactly the host names of the routes
/// that serve it, and each name goes to the outbound of the last such route that names it
/// (the one with the greatest name, routes being kept in name order).
pub proof fn lemma_sni_hosts(routes: Seq<(String, TLSRoute)>, gw: Seq<char>, ln: Seq<char>, port: u16, h: Seq<char>)
    ensures
        sni_fold(routes, gw, ln, port).dom().contains(h) <==> exists|i: int| 0 <= i < routes.len()
            && serves_by_name(routes[i].1, gw, ln, port) && #[trigger] texts(routes[i].1.hostnames@).contains(h),
        sni_fold(routes, gw, ln, port).dom().contains(h) ==> exists|i: int| 0 <= i < routes.len()
            && serves_by_name(routes[i].1, gw, ln, port) && #[trigger] texts(routes[i].1.hostnames@).contains(h)
            && sni_fold(routes, gw, ln, port)[h] == tls_route_outbound(routes[i].1)->0
            && forall|j: int| i < j < routes.len() ==> !(serves_by_name(routes[j].1, gw, ln, port)
                && #[trigger] texts(routes[j].1.hostnames@).contains(h)),
    decreases routes.len(),
{
    if routes.len() > 0 {
        let p = routes.drop_last();
        let n = routes.len() - 1;
        let r = routes.last().1;
        let m = sni_fold(p, gw, ln, port);
        lemma_sni_hosts(p, gw, ln, port, h);
        assert(routes[n] == routes.last());
        assert(forall|i: int| 0 <= i < p.len() ==> routes[i] == p[i]);
        let last_names = serves_by_name(r, gw, ln, port) && texts(r.hostnames@).contains(h);
        if serves_by_name(r, gw, ln, port) {
            lemma_insert_hosts(m, r.hostnames@, tls_route_outbound(r)->0, h);
        }
        if last_names {
            assert(texts(routes[n].1.hostnames@).contains(h));
        } else if m.dom().contains(h) {
            let i = choose|i: int| 0 <= i < p.len()
                && serves_by_name(p[i].1, gw, ln, port) && #[trigger] texts(p[i].1.hostnames@).contains(h)
                && m[h] == tls_route_outbound(p[i].1)->0
                && forall|j: int| i < j < p.len() ==> !(serves_by_name(p[j].1, gw, ln, port)
                    && #[trigger] texts(p[j].1.hostnames@).contains(h));
            assert(texts(routes[i].1.hostnames@).contains(h));
            assert forall|j: int| i < j < routes.len() implies !(serves_by_name(routes[j].1, gw, ln, port)
                && #[trigger] texts(routes[j].1.hostnames@).contains(h)) by {
                if j < n {
                    assert(routes[j] == p[j]);
                }
            }
        } else {
            assert forall|i: int| 0 <= i < routes.len() implies !(serves_by_name(routes[i].1, gw, ln, port)
                && #[trigger] texts(routes[i].1.hostnames@).contains(h)) by {
                if i < n {
                    assert(routes[i] == p[i]);
                }
            }
        }
    }
}

/// `name` is `tcp-gateway-<gw>-<listener>` for some `TLS` listener of `ls`.
pub open spec fn names_tls_listener(ls: Seq<GatewayListener>, gw: Seq<char>, name: Seq<char>) -> bool {
    exists|i: int| 0 <= i < ls.len() && ls[i].protocol@ == "TLS"@ && name == "tcp-gateway-"@ + gw + "-"@ + #[trigger] ls[i].name@
}

/// Each service that building the TCP services adds belongs to a `TLS` listener of the
/// gateway and is named `tcp-gateway-<gateway>-<listener>`.
pub proof fn lemma_tcp_services_for_tls_listeners(
    c: ServiceConfigView,
    gw: Seq<char>,
    tcp_routes: Seq<(String, TCPRoute)>,
    tls_routes: Seq<(String, TLSRoute)>,
    ls: Seq<GatewayListener>,
)
    ensures
        forall|k: int| 0 <= k < tcp_services_fold(c, gw, tcp_routes, tls_routes, ls).1.len()
            ==> names_tls_listener(ls, gw, #[trigger] tcp_services_fold(c, gw, tcp_routes, tls_routes, ls).1[k]),
    decreases ls.len(),
{
    if ls.len() > 0 {
        let p = ls.drop_last();
        let prev = tcp_services_fold(c, gw, tcp_routes, tls_routes, p);
        let r = tcp_services_fold(c, gw, tcp_routes, tls_routes, ls);
        lemma_tcp_services_for_tls_listeners(c, gw, tcp_routes, tls_routes, p);
        let l = ls.last();
        let j = ls.len() - 1;
        assert(ls[j] == l);
        let name = tcp_service_name(gw, l.name@);
        assert(r == tcp_listener_step(prev.0, prev.1, gw, tcp_routes, tls_routes, l));
        assert(r.1 == prev.1 || (r.1 == prev.1.push(name) && l.protocol@ == "TLS"@));
        assert forall|k: int| 0 <= k < r.1.len() implies names_tls_listener(ls, gw, #[trigger] r.1[k]) by {
            if k < prev.1.len() {
                assert(r.1[k] == prev.1[k]);
                assert(names_tls_listener(p, gw, prev.1[k]));
                let i = choose|i: int| 0 <= i < p.len() && p[i].protocol@ == "TLS"@
                    && prev.1[k] == "tcp-gateway-"@ + gw + "-"@ + #[trigger] p[i].name@;
                assert(ls[i] == p[i]);
                assert(ls[i].name@ == p[i].name@);
            } else {
                assert(r.1[k] == name);
                assert(ls[j].name@ == l.name@);
            }
        }
    }
}

} // verus!
