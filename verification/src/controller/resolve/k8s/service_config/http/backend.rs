//! The backends of an HTTP rule: a reverse proxy for each, and a balancer when there are several.
use vstd::prelude::*;
use crate::keyed::KeyedVec;
use crate::text::{concat3, concat4, concat5, decimal, owned, u64_text};
use crate::controller::resolve::k8s::service_config::http::{
    HTTPRouteFilter, HTTPRouteRulesBackendRefs, HttpGatewayBuilder, InstanceClass, InstanceConfig,
    InstanceConfigView, InstanceData, InstanceType, InstanceView, NodeOutput, NodePort, NodeTarget,
    instance_view, instances_view,
};
use crate::controller::resolve::k8s::service_config::http::filter::{build_filter_instance_from_k8s_filter, filter_view};

verus! {

/// The host of a backend: `name.namespace`, or `name`.
pub open spec fn backend_host(b: HTTPRouteRulesBackendRefs) -> Seq<char> {
    match b.namespace {
        Some(ns) => b.name@ + "."@ + ns@,
        None => b.name@,
    }
}

/// The balancer port of the `i`-th backend.
pub open spec fn backend_node_port(i: nat, b: HTTPRouteRulesBackendRefs) -> Seq<char> {
    "backend-"@ + decimal(i) + "-"@ + backend_host(b)
}

/// The id of the `fi`-th filter of the `i`-th backend of the rule with output `target`.
pub open spec fn backend_filter_id(target: Seq<char>, i: nat, b: HTTPRouteRulesBackendRefs, fi: nat) -> Seq<char> {
    target + "-backend-"@ + decimal(i) + "-"@ + backend_host(b) + "-filter-"@ + decimal(fi)
}

/// The id of the reverse proxy of the `i`-th backend.
pub open spec fn backend_instance_id(target: Seq<char>, i: nat, b: HTTPRouteRulesBackendRefs) -> Seq<char> {
    target + "-"@ + backend_node_port(i, b)
}

/// The upstream address of a backend: `host:port`, or the host without a port.
pub open spec fn backend_address(b: HTTPRouteRulesBackendRefs) -> Seq<char> {
    match b.port {
        Some(p) => backend_host(b) + ":"@ + decimal((p as u16) as nat),
        None => backend_host(b),
    }
}

/// The reverse proxy instance of a backend.
pub open spec fn reverse_proxy_view(b: HTTPRouteRulesBackendRefs) -> InstanceView {
    InstanceView {
        named: false,
        class: InstanceClass::ReverseProxy,
        kind: InstanceType::Node,
        config: InstanceConfigView::ReverseProxy { backend: backend_address(b), scheme: "k8s"@ },
    }
}

/// The filters of a backend.
pub open spec fn backend_filters(b: HTTPRouteRulesBackendRefs) -> Seq<HTTPRouteFilter> {
    match b.filters { Some(v) => v@, None => Seq::empty() }
}

/// The flow filters after adding the first `fs.len()` filters of the `i`-th backend.
pub open spec fn insert_backend_filters(
    m: Map<Seq<char>, InstanceView>,
    target: Seq<char>,
    i: nat,
    b: HTTPRouteRulesBackendRefs,
    fs: Seq<HTTPRouteFilter>,
) -> Map<Seq<char>, InstanceView>
    decreases fs.len(),
{
    if fs.len() == 0 {
        m
    } else {
        insert_backend_filters(m, target, i, b, fs.drop_last())
            .insert(backend_filter_id(target, i, b, (fs.len() - 1) as nat), filter_view(fs.last()))
    }
}

/// The flow filters after the backends `bs`: each backend's filters, then its reverse proxy.
pub open spec fn backends_fold(m: Map<Seq<char>, InstanceView>, target: Seq<char>, bs: Seq<HTTPRouteRulesBackendRefs>) -> Map<Seq<char>, InstanceView>
    decreases bs.len(),
{
    if bs.len() == 0 {
        m
    } else {
        let i = (bs.len() - 1) as nat;
        let b = bs.last();
        insert_backend_filters(backends_fold(m, target, bs.drop_last()), target, i, b, backend_filters(b))
            .insert(backend_instance_id(target, i, b), reverse_proxy_view(b))
    }
}

/// The weight of a backend (1 by default).
pub open spec fn backend_weight(b: HTTPRouteRulesBackendRefs) -> u32 {
    match b.weight { Some(w) => w as u32, None => 1 }
}

/// The balancer's outputs: each backend's port mapped to its reverse proxy id.
pub open spec fn balancer_outputs(target: Seq<char>, bs: Seq<HTTPRouteRulesBackendRefs>) -> Map<Seq<char>, Seq<char>>
    decreases bs.len(),
{
    if bs.len() == 0 {
        Map::empty()
    } else {
        let i = (bs.len() - 1) as nat;
        balancer_outputs(target, bs.drop_last()).insert(backend_node_port(i, bs.last()), backend_instance_id(target, i, bs.last()))
    }
}

/// The balancer's weights: each backend's port mapped to its weight.
pub open spec fn balancer_weights(bs: Seq<HTTPRouteRulesBackendRefs>) -> Map<Seq<char>, u32>
    decreases bs.len(),
{
    if bs.len() == 0 {
        Map::empty()
    } else {
        let i = (bs.len() - 1) as nat;
        balancer_weights(bs.drop_last()).insert(backend_node_port(i, bs.last()), backend_weight(bs.last()))
    }
}

/// The id of a rule's balancer.
pub open spec fn balancer_id(target: Seq<char>) -> Seq<char> {
    target + "-balancer"@
}

/// The balancer instance.
pub open spec fn balancer_view(bs: Seq<HTTPRouteRulesBackendRefs>) -> InstanceView {
    InstanceView {
        named: false,
        class: InstanceClass::Balancer,
        kind: InstanceType::Node,
        config: InstanceConfigView::Balancer { strategy: "RoundRobin"@, weights: balancer_weights(bs) },
    }
}

/// Where a rule's requests go, and the flow filters afterwards: a balancer over several
/// outputs, the one reverse proxy, or the internal error page when there is none.
pub open spec fn backend_target(
    m: Map<Seq<char>, InstanceView>,
    target: Seq<char>,
    bs: Seq<HTTPRouteRulesBackendRefs>,
    internal: Seq<char>,
) -> (Map<Seq<char>, InstanceView>, Seq<char>) {
    let m2 = backends_fold(m, target, bs);
    let outs = balancer_outputs(target, bs);
    if outs.dom().len() > 1 {
        (m2.insert(balancer_id(target), balancer_view(bs)), balancer_id(target))
    } else if outs.dom().len() == 1 {
        (m2, outs[outs.dom().choose()])
    } else {
        (m2, internal)
    }
}

impl HttpGatewayBuilder {
    /// Adds the instances serving a rule's backends and gives the target its requests go to.
    pub fn build_backend_instance_from_k8s_backend_ref(
        &mut self,
        target_name: &str,
        backend_refs: &Vec<HTTPRouteRulesBackendRefs>,
    ) -> (t: NodeTarget)
        ensures
            final(self).config.flow.instances.map() == old(self).config.flow.instances.map(),
            final(self).config.flow.nodes.map() == old(self).config.flow.nodes.map(),
            final(self).config.flow.entrypoint == old(self).config.flow.entrypoint,
            final(self).internal_error_500_page_instance_id == old(self).internal_error_500_page_instance_id,
            ({
                let r = backend_target(instances_view(old(self).config.flow.filters.map()), target_name@,
                    backend_refs@, old(self).internal_error_500_page_instance_id@);
                &&& instances_view(final(self).config.flow.filters.map()) == r.0
                &&& t.id@ == r.1
                &&& t.port is Default
            }),
    {
        let ghost m0 = instances_view(self.config.flow.filters.map());
        let mut outputs: KeyedVec<String, String> = KeyedVec::new();
        let mut weights: KeyedVec<String, u32> = KeyedVec::new();
        let mut index: usize = 0;
        while index < backend_refs.len()
            invariant
                index <= backend_refs@.len(),
                instances_view(self.config.flow.filters.map()) == backends_fold(m0, target_name@, backend_refs@.take(index as int)),
                self.config.flow.instances.map() == old(self).config.flow.instances.map(),
                self.config.flow.nodes.map() == old(self).config.flow.nodes.map(),
                self.config.flow.entrypoint == old(self).config.flow.entrypoint,
                self.internal_error_500_page_instance_id == old(self).internal_error_500_page_instance_id,
                crate::keyed::map_texts(outputs.map()) == balancer_outputs(target_name@, backend_refs@.take(index as int)),
                weights.map() == balancer_weights(backend_refs@.take(index as int)),
            decreases backend_refs@.len() - index,
        {
            let b = &backend_refs[index];
            let ghost bs = backend_refs@.take(index + 1);
            proof {
                assert(bs.drop_last() =~= backend_refs@.take(index as int));
                assert(bs.last() == backend_refs@[index as int]);
            }
            let idx = u64_text(index as u64);
            let host = match &b.namespace {
                Some(ns) => concat3(b.name.as_str(), ".", ns.as_str()),
                None => b.name.clone(),
            };
            let node_port = concat4("backend-", idx.as_str(), "-", host.as_str());
            let mut filter_refs: Vec<String> = Vec::new();
            let ghost mb = instances_view(self.config.flow.filters.map());
            match &b.filters {
                Some(filters) => {
                    let mut fi: usize = 0;
                    while fi < filters.len()
                        invariant
                            fi <= filters@.len(),
                            backend_filters(*b) == filters@,
                            host@ == backend_host(*b),
                            idx@ == decimal(index as nat),
                            instances_view(self.config.flow.filters.map()) == insert_backend_filters(mb, target_name@,
                                index as nat, *b, filters@.take(fi as int)),
                            self.config.flow.instances.map() == old(self).config.flow.instances.map(),
                            self.config.flow.nodes.map() == old(self).config.flow.nodes.map(),
                            self.config.flow.entrypoint == old(self).config.flow.entrypoint,
                            self.internal_error_500_page_instance_id == old(self).internal_error_500_page_instance_id,
                        decreases filters@.len() - fi,
                    {
                        let fidx = u64_text(fi as u64);
                        let mut id = concat5(target_name, "-backend-", idx.as_str(), "-", host.as_str());
                        id.append("-filter-");
                        id.append(fidx.as_str());
                        let instance = build_filter_instance_from_k8s_filter(&filters[fi]);
                        let ghost before = self.config.flow.filters.map();
                        filter_refs.push(id.clone());
                        self.config.flow.filters.insert(id, instance);
                        proof {
                            let t = filters@.take(fi + 1);
                            assert(t.drop_last() =~= filters@.take(fi as int));
                            assert(t.last() == filters@[fi as int]);
                            assert(instances_view(self.config.flow.filters.map()) =~= instances_view(before).insert(
                                backend_filter_id(target_name@, index as nat, *b, fi as nat), filter_view(filters@[fi as int])));
                        }
                        fi = fi + 1;
                    }
                    assert(filters@.take(filters@.len() as int) =~= filters@);
                },
                None => {
                    assert(backend_filters(*b) =~= Seq::<HTTPRouteFilter>::empty());
                },
            }
            let instance_id = concat3(target_name, "-", node_port.as_str());
            let weight: u32 = match b.weight { Some(w) => w as u32, None => 1 };
            outputs.insert(node_port.clone(), instance_id.clone());
            weights.insert(node_port, weight);
            let backend = match b.port {
                Some(p) => {
                    let ptext = u64_text((p as u16) as u64);
                    concat3(host.as_str(), ":", ptext.as_str())
                },
                None => host,
            };
            let ghost before = self.config.flow.filters.map();
            let proxy = InstanceData {
                class: InstanceClass::ReverseProxy,
                config: InstanceConfig::ReverseProxy { backend, scheme: owned("k8s") },
                name: None,
                kind: InstanceType::Node,
            };
            self.config.flow.filters.insert(instance_id, proxy);
            proof {
                assert(instances_view(self.config.flow.filters.map()) =~= instances_view(before).insert(
                    backend_instance_id(target_name@, index as nat, *b), reverse_proxy_view(*b)));
            }
            index = index + 1;
        }
        assert(backend_refs@.take(backend_refs@.len() as int) =~= backend_refs@);
        let n = outputs.len();
        assert(crate::keyed::map_texts(outputs.map()).dom() =~= outputs.map().dom());
        if n > 1 {
            let id = concat3(target_name, "-balancer", "");
            proof { reveal_strlit(""); assert(""@ =~= Seq::<char>::empty()); }
            let balancer = InstanceData {
                class: InstanceClass::Balancer,
                config: InstanceConfig::Balancer { strategy: owned("RoundRobin"), weights },
                name: None,
                kind: InstanceType::Node,
            };
            let ghost before = self.config.flow.filters.map();
            self.config.flow.filters.insert(id.clone(), balancer);
            proof {
                assert(instances_view(self.config.flow.filters.map()) =~= instances_view(before).insert(
                    balancer_id(target_name@), balancer_view(backend_refs@)));
            }
            NodeTarget { id, port: NodePort::Default }
        } else if n == 1 {
            let mut es = outputs.into_entries();
            let ghost s = es@;
            let (k, v) = es.pop().unwrap();
            proof {
                let m = crate::keyed::entries_map(s);
                assert(crate::keyed::entry_keys(s)[0] == k@);
                assert forall|x: Seq<char>| m.dom().contains(x) <==> x == k@ by {
                    if m.dom().contains(x) {
                        let q = choose|q: int| 0 <= q < crate::keyed::entry_keys(s).len() && crate::keyed::entry_keys(s)[q] == x;
                        assert(q == 0);
                    }
                    assert(crate::keyed::entry_keys(s).contains(k@));
                }
                assert(m.dom() =~= set![k@]);
                crate::keyed::lemma_entries_map_at(s, 0);
                assert(crate::keyed::map_texts(m).dom() =~= set![k@]);
            }
            NodeTarget { id: v, port: NodePort::Default }
        } else {
            NodeTarget { id: self.internal_error_500_page_instance_id.clone(), port: NodePort::Default }
        }
    }
}

/// A backend is served by a reverse proxy node for `k8s` addresses, reaching
/// `<name>.<namespace>` (or `<name>`) on the backend's port when it gives one; its balancing
/// weight is the one it gives, 1 when it gives none.
pub proof fn lemma_backend_proxy(b: HTTPRouteRulesBackendRefs)
    ensures
        reverse_proxy_view(b).class == InstanceClass::ReverseProxy,
        reverse_proxy_view(b).kind == InstanceType::Node,
        b.namespace is Some ==> backend_host(b) == b.name@ + "."@ + b.namespace->0@,
        b.namespace is None ==> backend_host(b) == b.name@,
        b.port is Some && 0 <= b.port->0 <= u16::MAX ==> reverse_proxy_view(b).config
            == (InstanceConfigView::ReverseProxy { backend: backend_host(b) + ":"@ + decimal(b.port->0 as nat), scheme: "k8s"@ }),
        b.port is None ==> reverse_proxy_view(b).config
            == (InstanceConfigView::ReverseProxy { backend: backend_host(b), scheme: "k8s"@ }),
        b.weight is None ==> backend_weight(b) == 1,
        b.weight is Some && 0 <= b.weight->0 ==> backend_weight(b) == b.weight->0,
{
}

/// With several backends the balancer spreads requests round-robin, the last backend's port
/// carrying that backend's weight and leading to its reverse proxy; a rule's requests go to
/// the balancer when there is more than one output, and to the internal error page when
/// there is none.
pub proof fn lemma_balancer(m: Map<Seq<char>, InstanceView>, target: Seq<char>, bs: Seq<HTTPRouteRulesBackendRefs>, internal: Seq<char>)
    ensures
        balancer_view(bs).class == InstanceClass::Balancer,
        balancer_view(bs).config == (InstanceConfigView::Balancer { strategy: "RoundRobin"@, weights: balancer_weights(bs) }),
        bs.len() > 0 ==> balancer_weights(bs)[backend_node_port((bs.len() - 1) as nat, bs.last())] == backend_weight(bs.last()),
        bs.len() > 0 ==> balancer_outputs(target, bs)[backend_node_port((bs.len() - 1) as nat, bs.last())]
            == target + "-"@ + backend_node_port((bs.len() - 1) as nat, bs.last()),
        balancer_outputs(target, bs).dom().len() > 1 ==> backend_target(m, target, bs, internal).1 == target + "-balancer"@,
        bs.len() == 0 ==> backend_target(m, target, bs, internal).1 == internal,
{
    if bs.len() == 0 {
        assert(balancer_outputs(target, bs).dom() =~= Set::<Seq<char>>::empty());
    }
}

} // verus!
