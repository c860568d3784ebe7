//! Gateways of a cluster as one HTTP service per gateway, each rule's filters named after
//! its route and rule.
use vstd::prelude::*;
use crate::keyed::KeyedVec;
use crate::seqs::dedup_seq;
use crate::text::{concat2, concat3, decimal, owned, same_text, texts, u64_text};
use crate::controller::resolve::k8s::service_config::{
    ConfigView, Gateway, GatewayListener, K8sResource, Listener, ServiceConfig, ServiceConfigValue, ServiceConfigView, TcpRoute,
    TcpServiceConfig, Tls, TlsOptions, opt_text, service_config_view,
};
use crate::controller::resolve::k8s::service_config::http::{
    HTTPRoute, HTTPRouteFilter, HTTPRouteRules, HTTPRouteRulesMatches, HTTPRouteRulesMatchesPathType, HttpConfig,
    HttpConfigView, InstanceClass, InstanceConfig, InstanceData, InstanceType, InstanceView, NodeOutput, NodePort,
    PathTree, RuleBucket, RuleMatchView, http_config_view, http_tls_name, instance_view, instances_view,
    listener_certificate_refs, node_output_view, path_tree_view, router_view, add_http_listener, http_listener_effect,
    http_service_name,
};
use crate::controller::resolve::k8s::service_config::http::route::{
    EntryView, OutputView, RouterBuildView, rule_name_text, route_rules,
};
use crate::controller::resolve::k8s::service_config::http::rule_match::{
    RuleMatch, match_key, match_key_of, match_rule_view, rule_backend_target, rule_filters, rule_from_match,
    rule_matches,
};
pub use crate::controller::resolve::k8s::service_config::http::filter::build_filter_instance_from_k8s_filter;
use crate::controller::resolve::k8s::service_config::http::filter::filter_view;

pub use crate::controller::resolve::k8s::service_config::http::filter::build_url_rewrite;
use crate::controller::resolve::k8s::service_config::gather::{
    GatewayClassInfo, GatewayInfo, GatheredGateway, RouteInfo, gather_gateways, managed_gateways, routes_of,
};
pub use crate::controller::resolve::k8s::service_config::target_name;
pub use crate::controller::resolve::k8s::service_config::http::rule_match::{
    k8s_header_match_to_http_header_match, k8s_method_to_http_method, k8s_query_match_to_http_query_match,
};

verus! {

/// Where the routes of the gateways are looked for.
#[derive(Debug)]
pub struct K8sGatewayResourceConfig {
    pub gateway_namespace: String,
}

impl Default for K8sGatewayResourceConfig {
    /// Routes in the `default` namespace.
    fn default() -> (c: Self)
        ensures
            c.gateway_namespace@ == "default"@,
    {
        K8sGatewayResourceConfig { gateway_namespace: owned("default") }
    }
}

/// The controller name of the gateway classes this controller manages.
pub open spec fn gateway_controller_name() -> Seq<char> {
    "switchboard.io/gateway-controller"@
}

/// The controller name of the gateway classes this controller manages.
pub fn gateway_controller_name_text() -> (r: String)
    ensures
        r@ == gateway_controller_name(),
{
    owned("switchboard.io/gateway-controller")
}

/// A gateway with its HTTP routes, keyed by route name.
pub struct K8sGatewayGatewayData {
    pub gateway: Gateway,
    pub http_routes: KeyedVec<String, HTTPRoute>,
}

/// Gateways by name.
pub struct K8sGateways {
    pub gateways: KeyedVec<String, K8sGatewayGatewayData>,
}

/// Gateways by the name of their class.
pub struct K8sGatewayGatheredResource {
    pub gateway_classes: KeyedVec<String, K8sGateways>,
}

/// `"filter-<route>-<rule>-<index>"`: the id of a rule's filter.
pub open spec fn filter_id_text(route: Seq<char>, rule: Seq<char>, index: nat) -> Seq<char> {
    "filter-"@ + route + "-"@ + rule + "-"@ + decimal(index)
}

/// The id of the `index`-th filter of rule `rule` of route `route`.
pub fn filter_id(route: &str, rule: &str, index: usize) -> (r: String)
    ensures
        r@ == filter_id_text(route@, rule@, index as nat),
{
    let digits = u64_text(index as u64);
    let mut r = concat3("filter-", route, "-");
    r.append(rule);
    r.append("-");
    r.append(digits.as_str());
    proof {
        reveal_strlit("-");
        reveal_strlit("filter-");
    }
    r
}

/// The bucket of a match: regular-expression paths are kept apart from the others.
pub open spec fn bucket_key(m: HTTPRouteRulesMatches) -> (bool, Seq<char>) {
    let regex = match m.path {
        Some(p) => p.kind matches Some(HTTPRouteRulesMatchesPathType::RegularExpression),
        None => false,
    };
    (regex, match_key(m))
}

/// The rules of the matches in bucket `k`, in order.
pub open spec fn rules_in_bucket(ms: Seq<HTTPRouteRulesMatches>, k: (bool, Seq<char>)) -> Seq<RuleMatchView>
    decreases ms.len(),
{
    if ms.len() == 0 {
        Seq::empty()
    } else if bucket_key(ms.last()) == k {
        rules_in_bucket(ms.drop_last(), k).push(match_rule_view(ms.last()))
    } else {
        rules_in_bucket(ms.drop_last(), k)
    }
}

/// The path entries of a rule: one per distinct bucket, in order of first occurrence, under
/// the bucket's path key, with the rules of the bucket leading to `target`.
pub open spec fn bucketed_entries(ms: Seq<HTTPRouteRulesMatches>, target: Seq<char>) -> Seq<EntryView> {
    dedup_seq(ms.map_values(|m: HTTPRouteRulesMatches| bucket_key(m)))
        .map_values(|k: (bool, Seq<char>)| (k.1, (target, rules_in_bucket(ms, k))))
}

/// The flow instances after adding the first `fs.len()` filters of rule `rule` of `route`.
pub open spec fn insert_named_filters(m: Map<Seq<char>, InstanceView>, route: Seq<char>, rule: Seq<char>, fs: Seq<HTTPRouteFilter>) -> Map<Seq<char>, InstanceView>
    decreases fs.len(),
{
    if fs.len() == 0 {
        m
    } else {
        insert_named_filters(m, route, rule, fs.drop_last())
            .insert(filter_id_text(route, rule, (fs.len() - 1) as nat), filter_view(fs.last()))
    }
}

/// The filter ids of rule `rule` of `route` with `n` filters.
pub open spec fn named_filter_ids(route: Seq<char>, rule: Seq<char>, n: nat) -> Seq<Seq<char>> {
    Seq::new(n, |i: int| filter_id_text(route, rule, i as nat))
}

/// The state after adding the `i`-th rule of route `route_name`.
pub open spec fn k8s_rule_step(s: RouterBuildView, route_name: Seq<char>, r: HTTPRouteRules, i: nat, internal: Seq<char>) -> RouterBuildView {
    let rn = rule_name_text(r, i);
    let t = route_name + "-"@ + rn;
    let bt = rule_backend_target(s.filters, t, r, internal);
    RouterBuildView {
        instances: insert_named_filters(s.instances, route_name, rn, rule_filters(r)),
        filters: bt.0,
        outputs: s.outputs.insert(t, ((bt.1, None), named_filter_ids(route_name, rn, rule_filters(r).len()))),
        hosts: s.hosts,
        entries: s.entries + bucketed_entries(rule_matches(r), t),
    }
}

/// The state after adding the rules `rs` of a route, in order.
pub open spec fn k8s_rules_fold(s: RouterBuildView, route_name: Seq<char>, rs: Seq<HTTPRouteRules>, internal: Seq<char>) -> RouterBuildView
    decreases rs.len(),
{
    if rs.len() == 0 {
        s
    } else {
        k8s_rule_step(k8s_rules_fold(s, route_name, rs.drop_last(), internal), route_name, rs.last(), (rs.len() - 1) as nat, internal)
    }
}

/// Host names after setting each of `hs` to the entries `pt`.
pub open spec fn hosts_set(m: Map<Seq<char>, Seq<EntryView>>, hs: Seq<String>, pt: Seq<EntryView>) -> Map<Seq<char>, Seq<EntryView>>
    decreases hs.len(),
{
    if hs.len() == 0 {
        m
    } else {
        hosts_set(m, hs.drop_last(), pt).insert(hs.last()@, pt)
    }
}

/// The state after adding a route: its host names (or `*`) are set to its entries,
/// replacing what they had.
pub open spec fn k8s_route_step(s: RouterBuildView, route_name: Seq<char>, route: HTTPRoute, internal: Seq<char>) -> RouterBuildView {
    let start = RouterBuildView { instances: s.instances, filters: s.filters, outputs: s.outputs, hosts: s.hosts, entries: Seq::empty() };
    let st = k8s_rules_fold(start, route_name, route_rules(route), internal);
    RouterBuildView {
        instances: st.instances,
        filters: st.filters,
        outputs: st.outputs,
        hosts: match route.hostnames {
            Some(hs) => hosts_set(st.hosts, hs@, st.entries),
            None => st.hosts.insert("*"@, st.entries),
        },
        entries: Seq::empty(),
    }
}

/// The state after adding the routes `routes`, in order.
pub open spec fn k8s_routes_fold(s: RouterBuildView, routes: Seq<(String, HTTPRoute)>, internal: Seq<char>) -> RouterBuildView
    decreases routes.len(),
{
    if routes.len() == 0 {
        s
    } else {
        k8s_route_step(k8s_routes_fold(s, routes.drop_last(), internal), routes.last().0@, routes.last().1, internal)
    }
}

/// The values of bucket keys.
pub open spec fn bucket_keys_view(s: Seq<(bool, String)>) -> Seq<(bool, Seq<char>)> {
    s.map_values(|k: (bool, String)| (k.0, k.1@))
}

/// The bucket key of a match.
fn bucket_key_of(m: &HTTPRouteRulesMatches) -> (r: (bool, String))
    ensures
        (r.0, r.1@) == bucket_key(*m),
{
    let regex = match &m.path {
        Some(p) => match &p.kind {
            Some(HTTPRouteRulesMatchesPathType::RegularExpression) => true,
            _ => false,
        },
        None => false,
    };
    (regex, match_key_of(m))
}

/// Keeps the first occurrence of each bucket key.
fn dedup_bucket_keys(keys: &Vec<(bool, String)>) -> (r: Vec<(bool, String)>)
    ensures
        bucket_keys_view(r@) == dedup_seq(bucket_keys_view(keys@)),
{
    let mut r: Vec<(bool, String)> = Vec::new();
    let mut i: usize = 0;
    while i < keys.len()
        invariant
            i <= keys@.len(),
            bucket_keys_view(r@) == dedup_seq(bucket_keys_view(keys@).take(i as int)),
        decreases keys@.len() - i,
    {
        let ghost ki = (keys@[i as int].0, keys@[i as int].1@);
        let mut found = false;
        let mut j: usize = 0;
        while j < r.len()
            invariant
                j <= r@.len(),
                i < keys@.len(),
                ki == (keys@[i as int].0, keys@[i as int].1@),
                found == exists|k: int| 0 <= k < j && (r@[k].0, r@[k].1@) == ki,
            decreases r@.len() - j,
        {
            if r[j].0 == keys[i].0 && same_text(r[j].1.as_str(), keys[i].1.as_str()) {
                found = true;
            }
            j = j + 1;
        }
        let ghost prev = r@;
        proof {
            let t = bucket_keys_view(keys@).take(i + 1);
            assert(t.drop_last() =~= bucket_keys_view(keys@).take(i as int));
            assert(t.last() == ki);
            if found {
                let k = choose|k: int| 0 <= k < j && (r@[k].0, r@[k].1@) == ki;
                assert(bucket_keys_view(r@)[k] == t.last());
            } else {
                assert forall|k: int| 0 <= k < bucket_keys_view(r@).len() implies bucket_keys_view(r@)[k] != t.last() by {
                    assert(bucket_keys_view(r@)[k] == (r@[k].0, r@[k].1@));
                }
            }
        }
        if !found {
            r.push((keys[i].0, keys[i].1.clone()));
            assert(bucket_keys_view(r@) =~= bucket_keys_view(prev).push(ki));
        }
        i = i + 1;
    }
    assert(bucket_keys_view(keys@).take(keys@.len() as int) =~= bucket_keys_view(keys@));
    r
}

/// The rules of the matches in bucket `k`.
fn rules_for_bucket(ms: &Vec<HTTPRouteRulesMatches>, keys: &Vec<(bool, String)>, k: &(bool, String)) -> (r: Vec<RuleMatch>)
    requires
        keys@.len() == ms@.len(),
        forall|i: int| 0 <= i < ms@.len() ==> (#[trigger] keys@[i].0, keys@[i].1@) == bucket_key(ms@[i]),
    ensures
        r@.map_values(|x: RuleMatch| crate::controller::resolve::k8s::service_config::http::rule_match_view(x))
            == rules_in_bucket(ms@, (k.0, k.1@)),
{
    let ghost kv = (k.0, k.1@);
    let mut r: Vec<RuleMatch> = Vec::new();
    let mut i: usize = 0;
    while i < ms.len()
        invariant
            i <= ms@.len(),
            keys@.len() == ms@.len(),
            kv == (k.0, k.1@),
            forall|j: int| 0 <= j < ms@.len() ==> (#[trigger] keys@[j].0, keys@[j].1@) == bucket_key(ms@[j]),
            r@.map_values(|x: RuleMatch| crate::controller::resolve::k8s::service_config::http::rule_match_view(x))
                == rules_in_bucket(ms@.take(i as int), kv),
        decreases ms@.len() - i,
    {
        let ghost before = r@;
        proof {
            let t = ms@.take(i + 1);
            assert(t.drop_last() =~= ms@.take(i as int));
            assert(t.last() == ms@[i as int]);
            assert((keys@[i as int].0, keys@[i as int].1@) == bucket_key(ms@[i as int]));
        }
        if keys[i].0 == k.0 && same_text(keys[i].1.as_str(), k.1.as_str()) {
            let rule = rule_from_match(&ms[i]);
            r.push(rule);
            assert(r@.map_values(|x: RuleMatch| crate::controller::resolve::k8s::service_config::http::rule_match_view(x))
                =~= before.map_values(|x: RuleMatch| crate::controller::resolve::k8s::service_config::http::rule_match_view(x))
                .push(match_rule_view(ms@[i as int])));
        }
        i = i + 1;
    }
    assert(ms@.take(ms@.len() as int) =~= ms@);
    r
}

/// Adds to `path_tree` the entries of a rule's matches, one per bucket, leading to `target`.
fn insert_bucketed(ms: &Vec<HTTPRouteRulesMatches>, target: &str, path_tree: &mut PathTree)
    ensures
        path_tree_view(*final(path_tree)) == path_tree_view(*old(path_tree)) + bucketed_entries(ms@, target@),
{
    let mut keys: Vec<(bool, String)> = Vec::new();
    let mut i: usize = 0;
    while i < ms.len()
        invariant
            i <= ms@.len(),
            keys@.len() == i,
            forall|j: int| 0 <= j < i ==> (#[trigger] keys@[j].0, keys@[j].1@) == bucket_key(ms@[j]),
        decreases ms@.len() - i,
    {
        let k = bucket_key_of(&ms[i]);
        let ghost before = keys@;
        keys.push(k);
        assert(forall|j: int| 0 <= j < i ==> keys@[j] == before[j]);
        i = i + 1;
    }
    let ghost all_keys = ms@.map_values(|m: HTTPRouteRulesMatches| bucket_key(m));
    assert(bucket_keys_view(keys@) =~= all_keys);
    let distinct = dedup_bucket_keys(&keys);
    let ghost entries = bucketed_entries(ms@, target@);
    let mut j: usize = 0;
    while j < distinct.len()
        invariant
            j <= distinct@.len(),
            bucket_keys_view(distinct@) == dedup_seq(all_keys),
            all_keys == ms@.map_values(|m: HTTPRouteRulesMatches| bucket_key(m)),
            entries == bucketed_entries(ms@, target@),
            keys@.len() == ms@.len(),
            forall|x: int| 0 <= x < ms@.len() ==> (#[trigger] keys@[x].0, keys@[x].1@) == bucket_key(ms@[x]),
            path_tree_view(*path_tree) == path_tree_view(*old(path_tree)) + entries.take(j as int),
        decreases distinct@.len() - j,
    {
        let rules = rules_for_bucket(ms, &keys, &distinct[j]);
        let bucket = RuleBucket { target: owned(target), rules };
        proof {
            let dk = (distinct@[j as int].0, distinct@[j as int].1@);
            assert(bucket_keys_view(distinct@)[j as int] == dk);
            assert(entries[j as int] == (dk.1, (target@, rules_in_bucket(ms@, dk))));
            assert(entries.take(j + 1) =~= entries.take(j as int).push(entries[j as int]));
        }
        path_tree.insert(distinct[j].1.clone(), bucket);
        j = j + 1;
    }
    assert(entries.take(entries.len() as int) =~= entries);
}

/// Builds the HTTP service of one gateway.
pub struct HttpGatewayBuilder {
    pub config: HttpConfig,
    pub internal_error_500_page_instance_id: String,
}

/// The state a build starts from: the builder's flow, and no router outputs yet.
pub open spec fn k8s_router_start(b: HttpGatewayBuilder) -> RouterBuildView {
    RouterBuildView {
        instances: instances_view(b.config.flow.instances.map()),
        filters: instances_view(b.config.flow.filters.map()),
        outputs: Map::empty(),
        hosts: Map::empty(),
        entries: Seq::empty(),
    }
}

/// The state of a builder, the router outputs and host names so far, and the entries of
/// the route under way.
pub open spec fn k8s_build_state(
    b: HttpGatewayBuilder,
    outputs: Map<Seq<char>, NodeOutput>,
    hosts: Map<Seq<char>, PathTree>,
    entries: Seq<EntryView>,
) -> RouterBuildView {
    RouterBuildView {
        instances: instances_view(b.config.flow.instances.map()),
        filters: instances_view(b.config.flow.filters.map()),
        outputs: outputs.map_values(|o: NodeOutput| node_output_view(o)),
        hosts: hosts.map_values(|t: PathTree| path_tree_view(t)),
        entries,
    }
}

/// The router node of a gateway's flow.
pub open spec fn k8s_router_view(s: RouterBuildView) -> InstanceView {
    router_view(s)
}

impl HttpGatewayBuilder {
    /// A builder with an empty flow; requests without a backend go to `internal-error-500-page`.
    pub fn new() -> (b: Self)
        ensures
            b.internal_error_500_page_instance_id@ == "internal-error-500-page"@,
            b.config.flow.instances.map() == Map::<Seq<char>, InstanceData>::empty(),
            b.config.flow.filters.map() == Map::<Seq<char>, InstanceData>::empty(),
            b.config.flow.nodes.map() == Map::<Seq<char>, InstanceData>::empty(),
            b.config.flow.entrypoint.id@ == Seq::<char>::empty(),
            b.config.flow.entrypoint.port is Default,
    {
        HttpGatewayBuilder { config: HttpConfig::new(), internal_error_500_page_instance_id: owned("internal-error-500-page") }
    }

    /// The flow built so far.
    pub fn build(self) -> (c: HttpConfig)
        ensures
            c == self.config,
    {
        self.config
    }

    /// Adds the `i`-th rule of route `route_name`: its backends, its filters, its router
    /// output and the path entries of its matches.
    fn add_rule(
        &mut self,
        route_name: &str,
        rule: &HTTPRouteRules,
        i: usize,
        path_tree: &mut PathTree,
        outputs: &mut KeyedVec<String, NodeOutput>,
        hosts: Ghost<Map<Seq<char>, PathTree>>,
    )
        ensures
            k8s_build_state(*final(self), final(outputs).map(), hosts@, path_tree_view(*final(path_tree)))
                == k8s_rule_step(k8s_build_state(*old(self), old(outputs).map(), hosts@, path_tree_view(*old(path_tree))),
                    route_name@, *rule, i as nat, old(self).internal_error_500_page_instance_id@),
            final(self).config.flow.nodes.map() == old(self).config.flow.nodes.map(),
            final(self).config.flow.entrypoint == old(self).config.flow.entrypoint,
            final(self).internal_error_500_page_instance_id == old(self).internal_error_500_page_instance_id,
    {
        let ghost s0 = k8s_build_state(*self, outputs.map(), hosts@, path_tree_view(*path_tree));
        let ghost internal = self.internal_error_500_page_instance_id@;
        let rule_name = match &rule.name {
            Some(n) => n.clone(),
            None => {
                let digits = u64_text(i as u64);
                concat2("rule-", digits.as_str())
            },
        };
        assert(rule_name@ == rule_name_text(*rule, i as nat));
        let target = concat3(route_name, "-", rule_name.as_str());
        let ghost bt = rule_backend_target(s0.filters, target@, *rule, internal);
        let output_target = match &rule.backend_refs {
            Some(bs) => {
                let mut cfg = HttpConfig::new();
                std::mem::swap(&mut cfg, &mut self.config);
                let mut inner = crate::controller::resolve::k8s::service_config::http::HttpGatewayBuilder {
                    config: cfg,
                    internal_error_500_page_instance_id: self.internal_error_500_page_instance_id.clone(),
                };
                let t = inner.build_backend_instance_from_k8s_backend_ref(target.as_str(), bs);
                self.config = inner.config;
                t
            },
            None => crate::controller::resolve::k8s::service_config::http::NodeTarget {
                id: self.internal_error_500_page_instance_id.clone(),
                port: NodePort::Default,
            },
        };
        assert(instances_view(self.config.flow.filters.map()) == bt.0);
        assert(output_target.id@ == bt.1 && output_target.port is Default);
        let ghost fm1 = self.config.flow.filters.map();
        let ghost m0 = instances_view(self.config.flow.instances.map());
        let mut filter_ids: Vec<String> = Vec::new();
        match &rule.filters {
            Some(filters) => {
                let mut k: usize = 0;
                while k < filters.len()
                    invariant
                        k <= filters@.len(),
                        rule_filters(*rule) == filters@,
                        rule_name@ == rule_name_text(*rule, i as nat),
                        instances_view(self.config.flow.instances.map())
                            == insert_named_filters(m0, route_name@, rule_name@, filters@.take(k as int)),
                        texts(filter_ids@) == named_filter_ids(route_name@, rule_name@, k as nat),
                        self.config.flow.filters.map() == fm1,
                        self.config.flow.nodes.map() == old(self).config.flow.nodes.map(),
                        self.config.flow.entrypoint == old(self).config.flow.entrypoint,
                        self.internal_error_500_page_instance_id == old(self).internal_error_500_page_instance_id,
                    decreases filters@.len() - k,
                {
                    let id = filter_id(route_name, rule_name.as_str(), k);
                    let instance = build_filter_instance_from_k8s_filter(&filters[k]);
                    let ghost before = self.config.flow.instances.map();
                    let ghost ids_before = filter_ids@;
                    filter_ids.push(id.clone());
                    self.config.flow.instances.insert(id, instance);
                    proof {
                        let t = filters@.take(k + 1);
                        assert(t.drop_last() =~= filters@.take(k as int));
                        assert(t.last() == filters@[k as int]);
                        assert(instances_view(self.config.flow.instances.map()) =~= instances_view(before).insert(
                            filter_id_text(route_name@, rule_name@, k as nat), filter_view(filters@[k as int])));
                        assert(texts(filter_ids@) =~= texts(ids_before).push(filter_id_text(route_name@, rule_name@, k as nat)));
                        assert(texts(filter_ids@) =~= named_filter_ids(route_name@, rule_name@, (k + 1) as nat));
                    }
                    k = k + 1;
                }
                assert(filters@.take(filters@.len() as int) =~= filters@);
            },
            None => {
                assert(texts(filter_ids@) =~= named_filter_ids(route_name@, rule_name@, 0));
            },
        }
        match &rule.matches {
            Some(ms) => insert_bucketed(ms, target.as_str(), path_tree),
            None => {
                assert(bucketed_entries(Seq::<HTTPRouteRulesMatches>::empty(), target@) =~= Seq::empty());
                assert(path_tree_view(*path_tree) =~= path_tree_view(*old(path_tree)) + Seq::empty());
            },
        }
        let output = NodeOutput { target: output_target, filters: filter_ids };
        let ghost ov = node_output_view(output);
        let ghost ob = outputs.map();
        outputs.insert(target, output);
        proof {
            assert(outputs.map().map_values(|o: NodeOutput| node_output_view(o))
                =~= ob.map_values(|o: NodeOutput| node_output_view(o)).insert(route_name@ + "-"@ + rule_name@, ov));
            assert(k8s_build_state(*self, outputs.map(), hosts@, path_tree_view(*path_tree))
                =~= k8s_rule_step(s0, route_name@, *rule, i as nat, internal));
        }
    }

    /// The HTTP flow of a gateway: its routes in the order of `gateway.http_routes` become a
    /// router, added as an instance under the gateway's name.
    pub fn build_router_from_k8s(self, gateway: &K8sGatewayGatewayData) -> (c: HttpConfig)
        ensures
            ({
                let s = k8s_routes_fold(k8s_router_start(self), gateway.http_routes.seq(),
                    self.internal_error_500_page_instance_id@);
                &&& instances_view(c.flow.instances.map()) == s.instances.insert(gateway.gateway.name@, k8s_router_view(s))
                &&& instances_view(c.flow.filters.map()) == s.filters
            }),
            c.flow.nodes.map() == self.config.flow.nodes.map(),
            c.flow.entrypoint == self.config.flow.entrypoint,
    {
        let ghost start = k8s_router_start(self);
        let ghost internal = self.internal_error_500_page_instance_id@;
        let ghost nodes0 = self.config.flow.nodes.map();
        let ghost entry0 = self.config.flow.entrypoint;
        let mut b = self;
        let mut outputs: KeyedVec<String, NodeOutput> = KeyedVec::new();
        let mut hosts: KeyedVec<String, PathTree> = KeyedVec::new();
        let routes = gateway.http_routes.entries();
        proof {
            assert(outputs.map().map_values(|o: NodeOutput| node_output_view(o)) =~= Map::empty());
            assert(hosts.map().map_values(|t: PathTree| path_tree_view(t)) =~= Map::empty());
            assert(k8s_build_state(b, outputs.map(), hosts.map(), Seq::empty()) == start);
        }
        let mut i: usize = 0;
        while i < routes.len()
            invariant
                i <= routes@.len(),
                routes@ == gateway.http_routes.seq(),
                internal == b.internal_error_500_page_instance_id@,
                b.config.flow.nodes.map() == nodes0,
                b.config.flow.entrypoint == entry0,
                k8s_build_state(b, outputs.map(), hosts.map(), Seq::empty()) == k8s_routes_fold(start, routes@.take(i as int), internal),
            decreases routes@.len() - i,
        {
            let name = &routes[i].0;
            let route = &routes[i].1;
            let ghost s = k8s_routes_fold(start, routes@.take(i as int), internal);
            let ghost rstart = RouterBuildView {
                instances: s.instances, filters: s.filters, outputs: s.outputs, hosts: s.hosts, entries: Seq::empty(),
            };
            let mut path_tree = PathTree::new();
            match &route.rules {
                Some(rl) => {
                    let mut k: usize = 0;
                    while k < rl.len()
                        invariant
                            k <= rl@.len(),
                            route_rules(*route) == rl@,
                            internal == b.internal_error_500_page_instance_id@,
                            b.config.flow.nodes.map() == nodes0,
                            b.config.flow.entrypoint == entry0,
                            k8s_build_state(b, outputs.map(), hosts.map(), path_tree_view(path_tree))
                                == k8s_rules_fold(rstart, name@, rl@.take(k as int), internal),
                        decreases rl@.len() - k,
                    {
                        let ghost st = k8s_rules_fold(rstart, name@, rl@.take(k as int), internal);
                        b.add_rule(name.as_str(), &rl[k], k, &mut path_tree, &mut outputs, Ghost(hosts.map()));
                        proof {
                            let t = rl@.take(k + 1);
                            assert(t.drop_last() =~= rl@.take(k as int));
                            assert(t.last() == rl@[k as int]);
                            assert(k8s_rules_fold(rstart, name@, t, internal) == k8s_rule_step(st, name@, rl@[k as int], k as nat, internal));
                        }
                        k = k + 1;
                    }
                    assert(rl@.take(rl@.len() as int) =~= rl@);
                },
                None => {
                    assert(path_tree_view(path_tree) =~= Seq::<EntryView>::empty());
                    assert(k8s_build_state(b, outputs.map(), hosts.map(), path_tree_view(path_tree)) =~= rstart);
                },
            }
            let ghost st = k8s_rules_fold(rstart, name@, route_rules(*route), internal);
            let ghost pt = path_tree_view(path_tree);
            assert(pt == st.entries);
            match &route.hostnames {
                Some(hs) => {
                    let mut j: usize = 0;
                    while j < hs.len()
                        invariant
                            j <= hs@.len(),
                            path_tree_view(path_tree) == pt,
                            hosts.map().map_values(|t: PathTree| path_tree_view(t)) == hosts_set(st.hosts, hs@.take(j as int), pt),
                            outputs.map().map_values(|o: NodeOutput| node_output_view(o)) == st.outputs,
                            instances_view(b.config.flow.instances.map()) == st.instances,
                            instances_view(b.config.flow.filters.map()) == st.filters,
                        decreases hs@.len() - j,
                    {
                        let ghost before = hosts.map().map_values(|t: PathTree| path_tree_view(t));
                        let copy = path_tree.duplicate();
                        hosts.insert(hs[j].clone(), copy);
                        proof {
                            let t = hs@.take(j + 1);
                            assert(t.drop_last() =~= hs@.take(j as int));
                            assert(t.last() == hs@[j as int]);
                            assert(hosts.map().map_values(|t: PathTree| path_tree_view(t)) =~= before.insert(hs@[j as int]@, pt));
                        }
                        j = j + 1;
                    }
                    assert(hs@.take(hs@.len() as int) =~= hs@);
                },
                None => {
                    let ghost before = hosts.map().map_values(|t: PathTree| path_tree_view(t));
                    hosts.insert(owned("*"), path_tree);
                    assert(hosts.map().map_values(|t: PathTree| path_tree_view(t)) =~= before.insert("*"@, pt));
                },
            }
            proof {
                let t = routes@.take(i + 1);
                assert(t.drop_last() =~= routes@.take(i as int));
                assert(t.last() == routes@[i as int]);
                assert(k8s_build_state(b, outputs.map(), hosts.map(), Seq::empty()) =~= k8s_route_step(s, name@, *route, internal));
            }
            i = i + 1;
        }
        assert(routes@.take(routes@.len() as int) =~= routes@);
        let ghost s = k8s_build_state(b, outputs.map(), hosts.map(), Seq::empty());
        let router = InstanceData {
            class: InstanceClass::Router,
            name: None,
            kind: InstanceType::Node,
            config: InstanceConfig::Router { outputs, hostname: hosts },
        };
        assert(instance_view(router) == router_view(s));
        let ghost before = b.config.flow.instances.map();
        b.config.flow.instances.insert(gateway.gateway.name.clone(), router);
        assert(instances_view(b.config.flow.instances.map()) =~= instances_view(before).insert(gateway.gateway.name@, router_view(s)));
        b.config
    }
}

/// The HTTP flow of a gateway built from an empty one: the router of its routes, as an
/// instance under the gateway's name.
pub open spec fn k8s_http_flow_view(g: K8sGatewayGatewayData) -> HttpConfigView {
    let start = RouterBuildView {
        instances: Map::empty(), filters: Map::empty(), outputs: Map::empty(), hosts: Map::empty(), entries: Seq::empty(),
    };
    let s = k8s_routes_fold(start, g.http_routes.seq(), "internal-error-500-page"@);
    HttpConfigView {
        entrypoint: (Seq::empty(), None),
        instances: s.instances.insert(g.gateway.name@, router_view(s)),
        filters: s.filters,
        nodes: Map::empty(),
    }
}

/// The configuration after giving every listener of `ls` to the HTTP service `name`.
pub open spec fn all_listeners_fold(c: ServiceConfigView, gw: Seq<char>, name: Seq<char>, ls: Seq<GatewayListener>) -> ServiceConfigView
    decreases ls.len(),
{
    if ls.len() == 0 {
        c
    } else {
        http_listener_effect(all_listeners_fold(c, gw, name, ls.drop_last()), gw, name, ls.last())
    }
}

/// The configuration after adding the HTTP service of a gateway on all its listeners.
pub open spec fn with_gateway_http_service(c: ServiceConfigView, g: K8sGatewayGatewayData) -> ServiceConfigView {
    let gw = g.gateway.name@;
    let name = http_service_name(gw);
    let c1 = all_listeners_fold(c, gw, name, g.gateway.listeners@);
    ServiceConfigView {
        services: c1.services.insert(name, ("http"@, name, Some(ConfigView::Http(k8s_http_flow_view(g))),
            Some("HTTP Gateway for K8s Gateway "@ + gw))),
        listeners: c1.listeners,
        routes: c1.routes,
        tls: c1.tls,
    }
}

/// Builds the service configuration of the gateways, one after another.
pub struct ServiceBuilder {
    pub config: ServiceConfig,
}

impl ServiceBuilder {
    /// A builder with an empty configuration.
    pub fn new() -> (b: Self)
        ensures
            b.config.tcp_services.map() == Map::<Seq<char>, TcpServiceConfig>::empty(),
            b.config.tcp_listeners.map() == Map::<u16, Listener>::empty(),
            b.config.tcp_routes.map() == Map::<u16, TcpRoute>::empty(),
            b.config.tls.map() == Map::<Seq<char>, Tls>::empty(),
    {
        ServiceBuilder { config: ServiceConfig::new() }
    }

    /// Adds the `http` service of a gateway, serving all its listeners, and returns its name.
    pub fn build_http_service(&mut self, gateway: &K8sGatewayGatewayData) -> (name: String)
        ensures
            name@ == http_service_name(gateway.gateway.name@),
            service_config_view(final(self).config) == with_gateway_http_service(service_config_view(old(self).config), *gateway),
    {
        let gw = gateway.gateway.name.as_str();
        let builder = HttpGatewayBuilder::new();
        proof {
            assert(instances_view(builder.config.flow.instances.map()) =~= Map::empty());
            assert(instances_view(builder.config.flow.filters.map()) =~= Map::empty());
            assert(instances_view(builder.config.flow.nodes.map()) =~= Map::empty());
        }
        let config = builder.build_router_from_k8s(gateway);
        assert(http_config_view(config) == k8s_http_flow_view(*gateway));
        let service_name = concat2("http-gateway-", gw);
        let ghost c0 = service_config_view(self.config);
        let listeners = &gateway.gateway.listeners;
        let mut j: usize = 0;
        while j < listeners.len()
            invariant
                j <= listeners@.len(),
                listeners@ == gateway.gateway.listeners@,
                gw@ == gateway.gateway.name@,
                service_name@ == http_service_name(gw@),
                service_config_view(self.config) == all_listeners_fold(c0, gw@, service_name@, listeners@.take(j as int)),
            decreases listeners@.len() - j,
        {
            proof {
                let t = listeners@.take(j + 1);
                assert(t.drop_last() =~= listeners@.take(j as int));
                assert(t.last() == listeners@[j as int]);
            }
            add_http_listener(&mut self.config, gw, service_name.as_str(), &listeners[j]);
            j = j + 1;
        }
        assert(listeners@.take(listeners@.len() as int) =~= listeners@);
        let service = TcpServiceConfig {
            provider: owned("http"),
            name: service_name.clone(),
            config: Some(ServiceConfigValue::Http(config)),
            description: Some(concat2("HTTP Gateway for K8s Gateway ", gw)),
        };
        self.config.tcp_services.insert(service_name.clone(), service);
        proof {
            let expected = with_gateway_http_service(c0, *gateway);
            assert(service_config_view(self.config).services =~= expected.services);
            assert(service_config_view(self.config).listeners =~= expected.listeners);
            assert(service_config_view(self.config).routes =~= expected.routes);
            assert(service_config_view(self.config).tls =~= expected.tls);
        }
        service_name
    }
}

/// The configuration after the HTTP services of the gateways `gs`, in order.
pub open spec fn gateways_http_fold(c: ServiceConfigView, gs: Seq<(String, K8sGatewayGatewayData)>) -> ServiceConfigView
    decreases gs.len(),
{
    if gs.len() == 0 {
        c
    } else {
        with_gateway_http_service(gateways_http_fold(c, gs.drop_last()), gs.last().1)
    }
}

impl ServiceBuilder {
    /// Adds the HTTP service of each gateway, in the order of `gateways`.
    pub fn build_gateway_services(&mut self, gateways: &KeyedVec<String, K8sGatewayGatewayData>)
        ensures
            service_config_view(final(self).config) == gateways_http_fold(service_config_view(old(self).config), gateways.seq()),
    {
        let entries = gateways.entries();
        let ghost c0 = service_config_view(self.config);
        let mut i: usize = 0;
        while i < entries.len()
            invariant
                i <= entries@.len(),
                entries@ == gateways.seq(),
                service_config_view(self.config) == gateways_http_fold(c0, entries@.take(i as int)),
            decreases entries@.len() - i,
        {
            proof {
                let t = entries@.take(i + 1);
                assert(t.drop_last() =~= entries@.take(i as int));
                assert(t.last() == entries@[i as int]);
            }
            let _ = self.build_http_service(&entries[i].1);
            i = i + 1;
        }
        assert(entries@.take(entries@.len() as int) =~= entries@);
    }
}

/// Why the gateways of the cluster could not be gathered or built.
#[derive(Debug)]
pub enum K8sGatewayResourceError {
    NoK8sClient,
    /// The message of a cluster error.
    KubeError(String),
    /// The message of a build error.
    ServiceBuilderError(String),
}

/// `r` holds the gateways managed by `controller` among `gateways`, each with its HTTP
/// routes among `http_routes` and no other routes.
pub open spec fn gathered_with_http_routes(
    r: Map<Seq<char>, GatheredGateway>,
    controller: Seq<char>,
    classes: Seq<GatewayClassInfo>,
    gateways: Seq<GatewayInfo>,
    http_routes: Seq<RouteInfo>,
) -> bool {
    &&& r.dom() == managed_gateways(controller, classes, gateways).dom()
    &&& forall|n: Seq<char>| #[trigger] r.dom().contains(n) ==> {
        &&& r[n].gateway == managed_gateways(controller, classes, gateways)[n]
        &&& r[n].http_routes.map() == routes_of(n, http_routes)
        &&& r[n].tcp_routes.map() == Map::<Seq<char>, usize>::empty()
        &&& r[n].tls_routes.map() == Map::<Seq<char>, usize>::empty()
    }
}

/// The gateways to build services for. Without a gateway resource configuration there are
/// none; without a cluster client (`listed` is `None`) gathering fails with `NoK8sClient`;
/// otherwise `listed` holds what the cluster returned (gateway classes, gateways, and the
/// HTTP routes of the configured namespace) and the result is the gateways whose class this
/// controller manages, each with its HTTP routes.
pub fn gather_k8s_gateway_config(
    config: Option<&K8sGatewayResourceConfig>,
    listed: Option<(&Vec<GatewayClassInfo>, &Vec<GatewayInfo>, &Vec<RouteInfo>)>,
) -> (r: Result<KeyedVec<String, GatheredGateway>, K8sGatewayResourceError>)
    ensures
        config is None ==> r is Ok && r->Ok_0.map() == Map::<Seq<char>, GatheredGateway>::empty(),
        config is Some && listed is None ==> r is Err && r->Err_0 is NoK8sClient,
        config is Some && listed is Some ==> r is Ok && gathered_with_http_routes(r->Ok_0.map(),
            gateway_controller_name(), (listed->0).0@, (listed->0).1@, (listed->0).2@),
{
    match config {
        None => Ok(KeyedVec::new()),
        Some(_) => match listed {
            None => Err(K8sGatewayResourceError::NoK8sClient),
            Some((classes, gateways, http_routes)) => {
                let controller = gateway_controller_name_text();
                let none: Vec<RouteInfo> = Vec::new();
                let r = gather_gateways(controller.as_str(), classes, gateways, http_routes, &none, &none);
                proof {
                    assert(routes_of(Seq::<char>::empty(), none@) == Map::<Seq<char>, usize>::empty());
                    assert forall|n: Seq<char>| routes_of(n, none@) == Map::<Seq<char>, usize>::empty() by {
                        assert(none@.len() == 0);
                    }
                }
                Ok(r)
            },
        },
    }
}

} // verus!
