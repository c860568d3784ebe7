//! Where the traffic of a TCP or TLS route goes.
use vstd::prelude::*;
use crate::keyed::{KeyedVec, entries_map, entry_keys, lemma_entries_map_push, MapKey};
use crate::text::{concat2, owned};
use crate::controller::resolve::k8s::service_config::{
    BackendRef, RouteRule, TCPRoute, TLSRoute, rule_backends, target_name, target_name_text,
};

verus! {

/// One upstream host and port, with its balancing weight.
#[derive(Debug)]
pub struct OutboundEndpoint {
    pub host: String,
    pub port: u16,
    pub weight: Option<u32>,
}

/// The value of an endpoint: host, port, weight.
pub type EndpointView = (Seq<char>, u16, Option<u32>);

pub open spec fn endpoint_view(e: OutboundEndpoint) -> EndpointView {
    (e.host@, e.port, e.weight)
}

/// The endpoints of a named map, by value.
pub open spec fn endpoint_map_view(m: Map<Seq<char>, OutboundEndpoint>) -> Map<Seq<char>, EndpointView> {
    m.map_values(|e: OutboundEndpoint| endpoint_view(e))
}

/// Upstreams of a route: one endpoint, or several by name.
#[derive(Debug)]
pub enum Outbound {
    Single(OutboundEndpoint),
    NamedMap(KeyedVec<String, OutboundEndpoint>),
}

/// The value of an outbound.
pub enum OutboundView {
    Single(EndpointView),
    NamedMap(Map<Seq<char>, EndpointView>),
}

impl View for Outbound {
    type V = OutboundView;

    open spec fn view(&self) -> OutboundView {
        match self {
            Outbound::Single(e) => OutboundView::Single(endpoint_view(*e)),
            Outbound::NamedMap(m) => OutboundView::NamedMap(endpoint_map_view(m.map())),
        }
    }
}

impl OutboundEndpoint {
    /// A copy of this endpoint.
    pub fn duplicate(&self) -> (r: Self)
        ensures
            endpoint_view(r) == endpoint_view(*self),
    {
        OutboundEndpoint { host: self.host.clone(), port: self.port, weight: self.weight }
    }
}

impl Outbound {
    /// A copy of this outbound.
    pub fn duplicate(&self) -> (r: Self)
        ensures
            r@ == self@,
    {
        match self {
            Outbound::Single(e) => Outbound::Single(e.duplicate()),
            Outbound::NamedMap(m) => {
                let es = m.entries();
                let mut c: KeyedVec<String, OutboundEndpoint> = KeyedVec::new();
                let mut i: usize = 0;
                while i < es.len()
                    invariant
                        i <= es@.len(),
                        entry_keys(es@).no_duplicates(),
                        endpoint_map_view(c.map()) == endpoint_map_view(entries_map(es@.take(i as int))),
                    decreases es@.len() - i,
                {
                    let ghost before = c.map();
                    c.insert(es[i].0.clone(), es[i].1.duplicate());
                    proof {
                        let t = es@.take(i + 1);
                        assert(t =~= es@.take(i as int).push(es@[i as int]));
                        assert(entry_keys(t).no_duplicates()) by {
                            assert forall|x: int, y: int| 0 <= x < entry_keys(t).len() && 0 <= y < entry_keys(t).len() && x != y
                                implies entry_keys(t)[x] != entry_keys(t)[y] by {
                                assert(entry_keys(es@)[x] != entry_keys(es@)[y]);
                            }
                        }
                        lemma_entries_map_push(es@.take(i as int), es@[i as int]);
                        let k = es@[i as int].0@;
                        let ev = endpoint_view(es@[i as int].1);
                        assert(endpoint_map_view(c.map()) =~= endpoint_map_view(before).insert(k, ev));
                        assert(endpoint_map_view(entries_map(t)) =~= endpoint_map_view(entries_map(es@.take(i as int))).insert(k, ev));
                    }
                    i = i + 1;
                }
                assert(es@.take(es@.len() as int) =~= es@);
                Outbound::NamedMap(c)
            },
        }
    }
}

/// The named endpoint of a backend given by its fields; none without a port that fits in 16 bits.
pub open spec fn endpoint_of_fields(name: Seq<char>, ns: Option<Seq<char>>, port: Option<i32>, weight: Option<i32>) -> Option<(Seq<char>, EndpointView)> {
    match port {
        None => None,
        Some(p) => if 0 <= p <= u16::MAX {
            let host = match ns { Some(n) => name + seq!['.'] + n, None => name };
            let w = match weight { Some(w) => if w >= 0 { Some(w as u32) } else { None }, None => None };
            Some((target_name_text(name, ns, Some(p as u16)), (host, p as u16, w)))
        } else {
            None
        },
    }
}

/// The named endpoint of a backend.
pub open spec fn backend_endpoint(b: BackendRef) -> Option<(Seq<char>, EndpointView)> {
    endpoint_of_fields(b.name@, match b.namespace { Some(n) => Some(n@), None => None }, b.port, b.weight)
}

/// The endpoints of a sequence of backends, a later backend of the same name replacing an earlier one.
pub open spec fn endpoints_of(bs: Seq<BackendRef>) -> Map<Seq<char>, EndpointView>
    decreases bs.len(),
{
    if bs.len() == 0 {
        Map::empty()
    } else {
        match backend_endpoint(bs.last()) {
            Some((k, e)) => endpoints_of(bs.drop_last()).insert(k, e),
            None => endpoints_of(bs.drop_last()),
        }
    }
}

/// The outbound of a set of endpoints: none when empty, the endpoint itself when alone, else all by name.
pub open spec fn outbound_of(m: Map<Seq<char>, EndpointView>) -> Option<OutboundView> {
    if m.dom().len() == 0 {
        None
    } else if m.dom().len() == 1 {
        Some(OutboundView::Single(m[m.dom().choose()]))
    } else {
        Some(OutboundView::NamedMap(m))
    }
}

/// The named endpoint of a backend: none unless it has a port that fits in 16 bits.
pub fn backend_to_endpoint(
    name: &str,
    namespace: Option<&str>,
    port: Option<i32>,
    weight: Option<i32>,
) -> (r: Option<(String, OutboundEndpoint)>)
    ensures
        match endpoint_of_fields(name@, match namespace { Some(n) => Some(n@), None => None }, port, weight) {
            Some((k, e)) => r is Some && (r->0).0@ == k && endpoint_view((r->0).1) == e,
            None => r is None,
        },
{
    let p = match port {
        None => { return None; },
        Some(p) => p,
    };
    if p < 0 || p > 65535 {
        return None;
    }
    let port: u16 = p as u16;
    let host = match namespace {
        Some(ns) => {
            let mut h = owned(name);
            h.append(".");
            h.append(ns);
            proof { reveal_strlit("."); assert(h@ =~= name@ + seq!['.'] + ns@); }
            h
        },
        None => owned(name),
    };
    let w = match weight {
        Some(w) => if w >= 0 { Some(w as u32) } else { None },
        None => None,
    };
    let key = target_name(name, namespace, Some(port));
    Some((key, OutboundEndpoint { host, port, weight: w }))
}

/// The outbound of a set of named endpoints: none when empty, the endpoint when alone, else the map.
pub fn outbound_from_endpoints(outbounds: KeyedVec<String, OutboundEndpoint>) -> (r: Option<Outbound>)
    ensures
        match outbound_of(endpoint_map_view(outbounds.map())) {
            Some(o) => r is Some && r->0@ == o,
            None => r is None,
        },
{
    let n = outbounds.len();
    assert(endpoint_map_view(outbounds.map()).dom() =~= outbounds.map().dom());
    if n == 0 {
        return None;
    }
    if n == 1 {
        let mut es = outbounds.into_entries();
        let ghost s = es@;
        let (k, e) = es.pop().unwrap();
        proof {
            let m = entries_map(s);
            assert(entry_keys(s)[0] == k@);
            assert forall|x: Seq<char>| m.dom().contains(x) <==> x == k@ by {
                if m.dom().contains(x) {
                    let q = choose|q: int| 0 <= q < entry_keys(s).len() && entry_keys(s)[q] == x;
                    assert(q == 0);
                }
                assert(entry_keys(s).contains(k@));
            }
            assert(m.dom() =~= set![k@]);
            crate::keyed::lemma_entries_map_at(s, 0);
        }
        return Some(Outbound::Single(e));
    }
    Some(Outbound::NamedMap(outbounds))
}

/// The outbound of a route's rules: its endpoints, a later one of the same name winning.
pub fn outbound_from_rules(rules: &Vec<RouteRule>) -> (r: Option<Outbound>)
    ensures
        match outbound_of(endpoints_of(rule_backends(rules@))) {
            Some(o) => r is Some && r->0@ == o,
            None => r is None,
        },
{
    let mut outbounds: KeyedVec<String, OutboundEndpoint> = KeyedVec::new();
    let mut i: usize = 0;
    while i < rules.len()
        invariant
            i <= rules@.len(),
            endpoint_map_view(outbounds.map()) == endpoints_of(rule_backends(rules@.take(i as int))),
        decreases rules@.len() - i,
    {
        let backends = &rules[i].backend_refs;
        let ghost pre = rule_backends(rules@.take(i as int));
        let mut j: usize = 0;
        while j < backends.len()
            invariant
                j <= backends@.len(),
                backends@ == rules@[i as int].backend_refs@,
                endpoint_map_view(outbounds.map()) == endpoints_of(pre + backends@.take(j as int)),
            decreases backends@.len() - j,
        {
            let b = &backends[j];
            let ns = match &b.namespace {
                Some(n) => Some(n.as_str()),
                None => None,
            };
            let ghost before = outbounds.map();
            let ghost s = pre + backends@.take(j + 1);
            proof {
                assert(s.drop_last() =~= pre + backends@.take(j as int));
                assert(s.last() == backends@[j as int]);
            }
            match backend_to_endpoint(b.name.as_str(), ns, b.port, b.weight) {
                Some((k, e)) => {
                    outbounds.insert(k, e);
                    proof {
                        assert(endpoint_map_view(outbounds.map()) =~= endpoint_map_view(before).insert(k@, endpoint_view(e)));
                    }
                },
                None => {},
            }
            j = j + 1;
        }
        proof {
            assert(backends@.take(backends@.len() as int) =~= backends@);
            let t = rules@.take(i + 1);
            assert(t.drop_last() =~= rules@.take(i as int));
            assert(t.last() == rules@[i as int]);
        }
        i = i + 1;
    }
    proof {
        assert(rules@.take(rules@.len() as int) =~= rules@);
    }
    outbound_from_endpoints(outbounds)
}

/// The outbound of a TCPRoute.
pub fn build_tcp_outbound_from_tcproute(route: &TCPRoute) -> (r: Option<Outbound>)
    ensures
        match outbound_of(endpoints_of(rule_backends(route.rules@))) {
            Some(o) => r is Some && r->0@ == o,
            None => r is None,
        },
{
    outbound_from_rules(&route.rules)
}

/// The outbound of a TLSRoute.
pub fn build_tcp_outbound_from_tlsroute(route: &TLSRoute) -> (r: Option<Outbound>)
    ensures
        match outbound_of(endpoints_of(rule_backends(route.rules@))) {
            Some(o) => r is Some && r->0@ == o,
            None => r is None,
        },
{
    outbound_from_rules(&route.rules)
}

/// The name of a named endpoint (empty when there is none).
pub open spec fn found_name(r: Option<(Seq<char>, EndpointView)>) -> Seq<char> {
    match r {
        Some((k, _)) => k,
        None => Seq::empty(),
    }
}

/// The host, port and weight of a named endpoint.
pub open spec fn found_parts(r: Option<(Seq<char>, EndpointView)>) -> (Seq<char>, u16, Option<u32>) {
    match r {
        Some((_, (h, p, w))) => (h, p, w),
        None => (Seq::empty(), 0, None),
    }
}

/// The host of a named endpoint.
pub open spec fn found_host(r: Option<(Seq<char>, EndpointView)>) -> Seq<char> {
    let (h, _, _) = found_parts(r);
    h
}

/// The port of a named endpoint.
pub open spec fn found_port(r: Option<(Seq<char>, EndpointView)>) -> u16 {
    let (_, p, _) = found_parts(r);
    p
}

/// The weight of a named endpoint.
pub open spec fn found_weight(r: Option<(Seq<char>, EndpointView)>) -> Option<u32> {
    let (_, _, w) = found_parts(r);
    w
}

/// A backend whose port fits in 16 bits gives an endpoint on that port. The endpoint carries
/// a weight exactly when the backend gives one that is not negative, and then the same
/// number; the weight changes neither the endpoint's name nor its host.
pub proof fn lemma_endpoint_weight(name: Seq<char>, ns: Option<Seq<char>>, p: i32, weight: Option<i32>)
    requires
        0 <= p <= u16::MAX,
    ensures
        endpoint_of_fields(name, ns, Some(p), weight) is Some,
        found_port(endpoint_of_fields(name, ns, Some(p), weight)) == p,
        found_weight(endpoint_of_fields(name, ns, Some(p), weight)) is Some <==> (weight is Some && weight->0 >= 0),
        found_weight(endpoint_of_fields(name, ns, Some(p), weight)) is Some
            ==> found_weight(endpoint_of_fields(name, ns, Some(p), weight))->0 == weight->0,
        found_name(endpoint_of_fields(name, ns, Some(p), weight)) == found_name(endpoint_of_fields(name, ns, Some(p), None)),
        found_host(endpoint_of_fields(name, ns, Some(p), weight)) == found_host(endpoint_of_fields(name, ns, Some(p), None)),
{
}

/// The endpoint of a backend is reached at `<name>.<namespace>` (or `<name>` without a
/// namespace) on the backend's port.
pub proof fn lemma_endpoint_host(name: Seq<char>, ns: Option<Seq<char>>, p: i32, weight: Option<i32>)
    requires
        0 <= p <= u16::MAX,
    ensures
        ns is Some ==> found_host(endpoint_of_fields(name, ns, Some(p), weight)) == name + seq!['.'] + ns->0,
        ns is None ==> found_host(endpoint_of_fields(name, ns, Some(p), weight)) == name,
        endpoint_of_fields(name, ns, None, weight) is None,
{
}

/// A route's outbound: none without endpoints, the endpoint itself when there is exactly
/// one, and all endpoints by name when there are several.
pub proof fn lemma_outbound_shape(m: Map<Seq<char>, EndpointView>, k: Seq<char>, e: EndpointView)
    ensures
        m.dom().len() == 0 ==> outbound_of(m) is None,
        outbound_of(Map::<Seq<char>, EndpointView>::empty().insert(k, e)) == Some(OutboundView::Single(e)),
        m.dom().finite() && m.dom().len() > 1 ==> outbound_of(m) == Some(OutboundView::NamedMap(m)),
{
    let one = Map::<Seq<char>, EndpointView>::empty().insert(k, e);
    assert(one.dom() =~= set![k]);
    assert(set![k].len() == 1);
    let c = one.dom().choose();
    assert(one.dom().contains(c));
    assert(c == k);
}

} // verus!
