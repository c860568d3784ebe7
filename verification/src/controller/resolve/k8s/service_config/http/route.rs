//! One HTTPRoute in the router.
use vstd::prelude::*;
use crate::text::{concat2, concat3, decimal, owned, texts, u64_text};
use crate::controller::resolve::k8s::service_config::http::{
    HTTPRoute, HTTPRouteRules, HttpBuildingRouter, HttpGatewayBuilder, InstanceView, NodeOutput, PathTree,
    RuleMatchView, instances_view, node_output_view, path_tree_view,
};
use crate::controller::resolve::k8s::service_config::http::rule_match::{
    bucket_entries, insert_rule_filters, rule_backend_target, rule_filters, rule_matches, rule_output_view,
};

verus! {

/// The value of a router output: target (instance id, port name) and filter ids.
pub type OutputView = ((Seq<char>, Option<Seq<char>>), Seq<Seq<char>>);

/// The value of a path entry: key, then output and rules.
pub type EntryView = (Seq<char>, (Seq<char>, Seq<RuleMatchView>));

/// What building the router has produced so far: the flow's instances and filters, the
/// router's outputs and host names, and the path entries of the route being added.
pub struct RouterBuildView {
    pub instances: Map<Seq<char>, InstanceView>,
    pub filters: Map<Seq<char>, InstanceView>,
    pub outputs: Map<Seq<char>, OutputView>,
    pub hosts: Map<Seq<char>, Seq<EntryView>>,
    pub entries: Seq<EntryView>,
}

/// The state of a builder and a router being built, with no route under way.
pub open spec fn build_state(b: HttpGatewayBuilder, r: HttpBuildingRouter) -> RouterBuildView {
    RouterBuildView {
        instances: instances_view(b.config.flow.instances.map()),
        filters: instances_view(b.config.flow.filters.map()),
        outputs: r.outputs.map().map_values(|o: NodeOutput| node_output_view(o)),
        hosts: r.hostname.map().map_values(|t: PathTree| path_tree_view(t)),
        entries: Seq::empty(),
    }
}

/// The name of the `i`-th rule of a route: its own name, or `rule-<i>`.
pub open spec fn rule_name_text(r: HTTPRouteRules, i: nat) -> Seq<char> {
    match r.name {
        Some(n) => n@,
        None => "rule-"@ + decimal(i),
    }
}

/// The output name of the `i`-th rule of route `route_name`: `<route>-<rule>`.
pub open spec fn rule_target(route_name: Seq<char>, r: HTTPRouteRules, i: nat) -> Seq<char> {
    route_name + "-"@ + rule_name_text(r, i)
}

/// The state after adding the `i`-th rule of a route.
pub open spec fn rule_step(s: RouterBuildView, route_name: Seq<char>, r: HTTPRouteRules, i: nat, internal: Seq<char>) -> RouterBuildView {
    let t = rule_target(route_name, r, i);
    let bt = rule_backend_target(s.filters, t, r, internal);
    RouterBuildView {
        instances: insert_rule_filters(s.instances, t, rule_filters(r)),
        filters: bt.0,
        outputs: s.outputs.insert(t, rule_output_view(bt.1, t, r)),
        hosts: s.hosts,
        entries: s.entries + bucket_entries(rule_matches(r), t),
    }
}

/// The state after adding the rules `rs` of a route, in order.
pub open spec fn rules_fold(s: RouterBuildView, route_name: Seq<char>, rs: Seq<HTTPRouteRules>, internal: Seq<char>) -> RouterBuildView
    decreases rs.len(),
{
    if rs.len() == 0 {
        s
    } else {
        rule_step(rules_fold(s, route_name, rs.drop_last(), internal), route_name, rs.last(), (rs.len() - 1) as nat, internal)
    }
}

/// Host names after giving each of `hs` the entries `pt`: added after the entries a host
/// name already has, or as its entries.
pub open spec fn hosts_fold(m: Map<Seq<char>, Seq<EntryView>>, hs: Seq<String>, pt: Seq<EntryView>) -> Map<Seq<char>, Seq<EntryView>>
    decreases hs.len(),
{
    if hs.len() == 0 {
        m
    } else {
        let m1 = hosts_fold(m, hs.drop_last(), pt);
        let h = hs.last()@;
        m1.insert(h, if m1.dom().contains(h) { m1[h] + pt } else { pt })
    }
}

/// Host names after a route with entries `pt`: its host names, or else `*`, whose entries
/// are then replaced.
pub open spec fn route_hosts(m: Map<Seq<char>, Seq<EntryView>>, route: HTTPRoute, pt: Seq<EntryView>) -> Map<Seq<char>, Seq<EntryView>> {
    match route.hostnames {
        Some(hs) => hosts_fold(m, hs@, pt),
        None => m.insert("*"@, pt),
    }
}

/// The rules of a route (none when absent).
pub open spec fn route_rules(route: HTTPRoute) -> Seq<HTTPRouteRules> {
    match route.rules { Some(v) => v@, None => Seq::empty() }
}

/// The state after adding a route.
pub open spec fn route_step(s: RouterBuildView, route_name: Seq<char>, route: HTTPRoute, internal: Seq<char>) -> RouterBuildView {
    let start = RouterBuildView { instances: s.instances, filters: s.filters, outputs: s.outputs, hosts: s.hosts, entries: Seq::empty() };
    let st = rules_fold(start, route_name, route_rules(route), internal);
    RouterBuildView {
        instances: st.instances,
        filters: st.filters,
        outputs: st.outputs,
        hosts: route_hosts(st.hosts, route, st.entries),
        entries: Seq::empty(),
    }
}

/// The name of a rule's output.
fn rule_target_of(route_name: &str, rule: &HTTPRouteRules, i: usize) -> (r: String)
    ensures
        r@ == rule_target(route_name@, *rule, i as nat),
{
    let rule_name = match &rule.name {
        Some(n) => n.clone(),
        None => {
            let digits = u64_text(i as u64);
            concat2("rule-", digits.as_str())
        },
    };
    concat3(route_name, "-", rule_name.as_str())
}

impl HttpGatewayBuilder {
    /// Adds a route: each rule becomes a router output named `<route>-<rule>`, and the path
    /// entries of all its rules go to each of its host names (`*` when it names none).
    pub fn build_route(&mut self, route_name: &str, route: &HTTPRoute, building_router: &mut HttpBuildingRouter)
        ensures
            build_state(*final(self), *final(building_router))
                == route_step(build_state(*old(self), *old(building_router)), route_name@, *route,
                    old(self).internal_error_500_page_instance_id@),
            final(self).config.flow.nodes.map() == old(self).config.flow.nodes.map(),
            final(self).config.flow.entrypoint == old(self).config.flow.entrypoint,
            final(self).internal_error_500_page_instance_id == old(self).internal_error_500_page_instance_id,
    {
        let ghost s0 = build_state(*self, *building_router);
        let ghost internal = self.internal_error_500_page_instance_id@;
        let ghost start = RouterBuildView {
            instances: s0.instances, filters: s0.filters, outputs: s0.outputs, hosts: s0.hosts, entries: Seq::empty(),
        };
        let mut path_tree = PathTree::new();
        match &route.rules {
            Some(rules_list) => {
                let mut i: usize = 0;
                while i < rules_list.len()
                    invariant
                        i <= rules_list@.len(),
                        route_rules(*route) == rules_list@,
                        internal == self.internal_error_500_page_instance_id@,
                        (RouterBuildView {
                            instances: instances_view(self.config.flow.instances.map()),
                            filters: instances_view(self.config.flow.filters.map()),
                            outputs: building_router.outputs.map().map_values(|o: NodeOutput| node_output_view(o)),
                            hosts: s0.hosts,
                            entries: path_tree_view(path_tree),
                        }) == rules_fold(start, route_name@, rules_list@.take(i as int), internal),
                        building_router.hostname.map() == old(building_router).hostname.map(),
                        self.config.flow.nodes.map() == old(self).config.flow.nodes.map(),
                        self.config.flow.entrypoint == old(self).config.flow.entrypoint,
                        self.internal_error_500_page_instance_id == old(self).internal_error_500_page_instance_id,
                    decreases rules_list@.len() - i,
                {
                    let rule = &rules_list[i];
                    let target = rule_target_of(route_name, rule, i);
                    let ghost before = building_router.outputs.map();
                    let ghost s = rules_fold(start, route_name@, rules_list@.take(i as int), internal);
                    let (port, output) = self.build_rule(rule, target.as_str(), &mut path_tree);
                    let ghost ov = node_output_view(output);
                    building_router.outputs.insert(port, output);
                    proof {
                        let t = rules_list@.take(i + 1);
                        assert(t.drop_last() =~= rules_list@.take(i as int));
                        assert(t.last() == rules_list@[i as int]);
                        assert(building_router.outputs.map().map_values(|o: NodeOutput| node_output_view(o))
                            =~= before.map_values(|o: NodeOutput| node_output_view(o)).insert(target@, ov));
                        assert(rules_fold(start, route_name@, t, internal) == rule_step(s, route_name@, *rule, i as nat, internal));
                    }
                    i = i + 1;
                }
                assert(rules_list@.take(rules_list@.len() as int) =~= rules_list@);
            },
            None => {
                assert(path_tree_view(path_tree) =~= Seq::<EntryView>::empty());
            },
        }
        let ghost st = rules_fold(start, route_name@, route_rules(*route), internal);
        let ghost pt = path_tree_view(path_tree);
        assert(pt == st.entries);
        match &route.hostnames {
            Some(hs) => {
                let mut j: usize = 0;
                while j < hs.len()
                    invariant
                        j <= hs@.len(),
                        path_tree_view(path_tree) == pt,
                        building_router.hostname.map().map_values(|t: PathTree| path_tree_view(t))
                            == hosts_fold(s0.hosts, hs@.take(j as int), pt),
                        building_router.outputs.map().map_values(|o: NodeOutput| node_output_view(o)) == st.outputs,
                        instances_view(self.config.flow.instances.map()) == st.instances,
                        instances_view(self.config.flow.filters.map()) == st.filters,
                    decreases hs@.len() - j,
                {
                    let h = &hs[j];
                    let ghost before = building_router.hostname.map().map_values(|t: PathTree| path_tree_view(t));
                    let copy = path_tree.duplicate();
                    match building_router.hostname.remove(h) {
                        Some(mut existing) => {
                            let ghost ev = path_tree_view(existing);
                            existing.merge(copy);
                            building_router.hostname.insert(h.clone(), existing);
                            proof {
                                assert(before.dom().contains(h@) && before[h@] == ev);
                                assert(building_router.hostname.map().map_values(|t: PathTree| path_tree_view(t))
                                    =~= before.insert(h@, ev + pt));
                            }
                        },
                        None => {
                            building_router.hostname.insert(h.clone(), copy);
                            proof {
                                assert(!before.dom().contains(h@));
                                assert(building_router.hostname.map().map_values(|t: PathTree| path_tree_view(t))
                                    =~= before.insert(h@, pt));
                            }
                        },
                    }
                    proof {
                        let t = hs@.take(j + 1);
                        assert(t.drop_last() =~= hs@.take(j as int));
                        assert(t.last() == hs@[j as int]);
                    }
                    j = j + 1;
                }
                assert(hs@.take(hs@.len() as int) =~= hs@);
            },
            None => {
                let ghost before = building_router.hostname.map().map_values(|t: PathTree| path_tree_view(t));
                building_router.hostname.insert(owned("*"), path_tree);
                assert(building_router.hostname.map().map_values(|t: PathTree| path_tree_view(t))
                    =~= before.insert("*"@, pt));
            },
        }
        assert(build_state(*self, *building_router) =~= route_step(s0, route_name@, *route, internal));
    }
}

/// The output of a rule is named after its route and the rule: `<route>-<name>` for a named
/// rule, `<route>-rule-<i>` for the `i`-th rule without a name.
pub proof fn lemma_rule_target(route_name: Seq<char>, r: HTTPRouteRules, i: nat)
    ensures
        r.name is Some ==> rule_target(route_name, r, i) == route_name + "-"@ + r.name->0@,
        r.name is None ==> rule_target(route_name, r, i) == route_name + "-rule-"@ + decimal(i),
{
    reveal_strlit("-");
    reveal_strlit("rule-");
    reveal_strlit("-rule-");
    assert(route_name + "-"@ + ("rule-"@ + decimal(i)) =~= route_name + "-rule-"@ + decimal(i));
}

/// Giving host names a route's entries: each named host gets the entries after those it
/// already had (or just them), and the other hosts keep theirs.
pub proof fn lemma_hosts_fold(m: Map<Seq<char>, Seq<EntryView>>, hs: Seq<String>, pt: Seq<EntryView>, h: Seq<char>)
    requires
        texts(hs).no_duplicates(),
    ensures
        !texts(hs).contains(h) ==> (hosts_fold(m, hs, pt).dom().contains(h) <==> m.dom().contains(h)),
        !texts(hs).contains(h) && m.dom().contains(h) ==> hosts_fold(m, hs, pt)[h] == m[h],
        texts(hs).contains(h) ==> hosts_fold(m, hs, pt).dom().contains(h),
        texts(hs).contains(h) ==> hosts_fold(m, hs, pt)[h] == if m.dom().contains(h) { m[h] + pt } else { pt },
    decreases hs.len(),
{
    if hs.len() > 0 {
        let p = hs.drop_last();
        assert(texts(hs) =~= texts(p).push(hs.last()@));
        assert(texts(p).no_duplicates()) by {
            assert forall|x: int, y: int| 0 <= x < texts(p).len() && 0 <= y < texts(p).len() && x != y
                implies texts(p)[x] != texts(p)[y] by {
                assert(texts(hs)[x] == texts(p)[x] && texts(hs)[y] == texts(p)[y]);
            }
        }
        lemma_hosts_fold(m, p, pt, h);
        crate::seqs::lemma_push_contains(texts(p), hs.last()@);
        if h == hs.last()@ {
            assert(!texts(p).contains(h)) by {
                if texts(p).contains(h) {
                    let x = choose|x: int| 0 <= x < texts(p).len() && texts(p)[x] == h;
                    assert(texts(hs)[x] == texts(hs)[texts(p).len() as int]);
                }
            }
        }
    } else {
        assert(texts(hs).len() == 0);
    }
}

/// A route without host names serves every host: its entries become those of `*`,
/// replacing what `*` had.
pub proof fn lemma_route_without_hosts(m: Map<Seq<char>, Seq<EntryView>>, route: HTTPRoute, pt: Seq<EntryView>)
    requires
        route.hostnames is None,
    ensures
        route_hosts(m, route, pt) == m.insert("*"@, pt),
{
}

} // verus!
