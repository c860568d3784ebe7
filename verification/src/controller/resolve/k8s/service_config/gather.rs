//! Which gateways of a cluster the controller manages, and which routes belong to each.
use vstd::prelude::*;
use crate::keyed::KeyedVec;
use crate::text::{same_text, texts};

verus! {

/// A gateway class: its name and the controller that manages its gateways.
#[derive(Debug)]
pub struct GatewayClassInfo {
    pub name: String,
    pub controller_name: String,
}

/// A gateway: its name and the name of its class.
#[derive(Debug)]
pub struct GatewayInfo {
    pub name: String,
    pub class_name: String,
}

/// A route: its name and the names of the gateways it names as parents.
#[derive(Debug)]
pub struct RouteInfo {
    pub name: String,
    pub parents: Vec<String>,
}

/// A managed gateway: its position in the gateway list, and for each kind of route the
/// position of the route of each name that belongs to it.
#[derive(Debug)]
pub struct GatheredGateway {
    pub gateway: usize,
    pub http_routes: KeyedVec<String, usize>,
    pub tcp_routes: KeyedVec<String, usize>,
    pub tls_routes: KeyedVec<String, usize>,
}

/// Some class named `class` is managed by `controller`.
pub open spec fn class_managed(controller: Seq<char>, classes: Seq<GatewayClassInfo>, class: Seq<char>) -> bool {
    exists|i: int| 0 <= i < classes.len() && #[trigger] classes[i].name@ == class && classes[i].controller_name@ == controller
}

/// The managed gateways by name: the last gateway of each name whose class is managed.
pub open spec fn managed_gateways(controller: Seq<char>, classes: Seq<GatewayClassInfo>, gws: Seq<GatewayInfo>) -> Map<Seq<char>, usize>
    decreases gws.len(),
{
    if gws.len() == 0 {
        Map::empty()
    } else {
        let m = managed_gateways(controller, classes, gws.drop_last());
        if class_managed(controller, classes, gws.last().class_name@) {
            m.insert(gws.last().name@, (gws.len() - 1) as usize)
        } else {
            m
        }
    }
}

/// The routes of gateway `gw` by name: the last route of each name that names `gw` as a
/// parent.
pub open spec fn routes_of(gw: Seq<char>, routes: Seq<RouteInfo>) -> Map<Seq<char>, usize>
    decreases routes.len(),
{
    if routes.len() == 0 {
        Map::empty()
    } else {
        let m = routes_of(gw, routes.drop_last());
        if texts(routes.last().parents@).contains(gw) {
            m.insert(routes.last().name@, (routes.len() - 1) as usize)
        } else {
            m
        }
    }
}

/// Whether a class named `class` is managed by `controller`.
fn is_class_managed(controller: &str, classes: &Vec<GatewayClassInfo>, class: &str) -> (b: bool)
    ensures
        b == class_managed(controller@, classes@, class@),
{
    let mut i: usize = 0;
    while i < classes.len()
        invariant
            i <= classes@.len(),
            forall|k: int| 0 <= k < i ==> !(#[trigger] classes@[k].name@ == class@ && classes@[k].controller_name@ == controller@),
        decreases classes@.len() - i,
    {
        if same_text(classes[i].name.as_str(), class) && same_text(classes[i].controller_name.as_str(), controller) {
            return true;
        }
        i = i + 1;
    }
    false
}

/// Whether `name` is among `names`.
fn names_contain(names: &Vec<String>, name: &str) -> (b: bool)
    ensures
        b == texts(names@).contains(name@),
{
    let mut i: usize = 0;
    while i < names.len()
        invariant
            i <= names@.len(),
            forall|k: int| 0 <= k < i ==> names@[k]@ != name@,
        decreases names@.len() - i,
    {
        if same_text(names[i].as_str(), name) {
            assert(texts(names@)[i as int] == name@);
            return true;
        }
        i = i + 1;
    }
    proof {
        if texts(names@).contains(name@) {
            let k = choose|k: int| 0 <= k < texts(names@).len() && texts(names@)[k] == name@;
            assert(names@[k]@ == name@);
        }
    }
    false
}

/// The routes of gateway `gw`.
pub fn routes_of_gateway(gw: &str, routes: &Vec<RouteInfo>) -> (r: KeyedVec<String, usize>)
    ensures
        r.map() == routes_of(gw@, routes@),
{
    let mut r: KeyedVec<String, usize> = KeyedVec::new();
    let mut i: usize = 0;
    while i < routes.len()
        invariant
            i <= routes@.len(),
            r.map() == routes_of(gw@, routes@.take(i as int)),
        decreases routes@.len() - i,
    {
        proof {
            let t = routes@.take(i + 1);
            assert(t.drop_last() =~= routes@.take(i as int));
            assert(t.last() == routes@[i as int]);
        }
        if names_contain(&routes[i].parents, gw) {
            r.insert(routes[i].name.clone(), i);
        }
        i = i + 1;
    }
    assert(routes@.take(routes@.len() as int) =~= routes@);
    r
}

/// The gateways managed by `controller`, by name.
pub fn managed_gateways_of(controller: &str, classes: &Vec<GatewayClassInfo>, gateways: &Vec<GatewayInfo>) -> (r: KeyedVec<String, usize>)
    ensures
        r.map() == managed_gateways(controller@, classes@, gateways@),
{
    let mut r: KeyedVec<String, usize> = KeyedVec::new();
    let mut i: usize = 0;
    while i < gateways.len()
        invariant
            i <= gateways@.len(),
            r.map() == managed_gateways(controller@, classes@, gateways@.take(i as int)),
        decreases gateways@.len() - i,
    {
        proof {
            let t = gateways@.take(i + 1);
            assert(t.drop_last() =~= gateways@.take(i as int));
            assert(t.last() == gateways@[i as int]);
        }
        if is_class_managed(controller, classes, gateways[i].class_name.as_str()) {
            r.insert(gateways[i].name.clone(), i);
        }
        i = i + 1;
    }
    assert(gateways@.take(gateways@.len() as int) =~= gateways@);
    r
}

/// The managed gateways by name, each with its routes of each kind.
pub fn gather_gateways(
    controller: &str,
    classes: &Vec<GatewayClassInfo>,
    gateways: &Vec<GatewayInfo>,
    http_routes: &Vec<RouteInfo>,
    tcp_routes: &Vec<RouteInfo>,
    tls_routes: &Vec<RouteInfo>,
) -> (r: KeyedVec<String, GatheredGateway>)
    ensures
        r.map().dom() == managed_gateways(controller@, classes@, gateways@).dom(),
        forall|n: Seq<char>| #[trigger] r.map().dom().contains(n) ==> {
            &&& r.map()[n].gateway == managed_gateways(controller@, classes@, gateways@)[n]
            &&& r.map()[n].http_routes.map() == routes_of(n, http_routes@)
            &&& r.map()[n].tcp_routes.map() == routes_of(n, tcp_routes@)
            &&& r.map()[n].tls_routes.map() == routes_of(n, tls_routes@)
        },
{
    let managed = managed_gateways_of(controller, classes, gateways);
    let entries = managed.entries();
    let ghost mg = managed_gateways(controller@, classes@, gateways@);
    let mut r: KeyedVec<String, GatheredGateway> = KeyedVec::new();
    let mut i: usize = 0;
    while i < entries.len()
        invariant
            i <= entries@.len(),
            crate::keyed::entry_keys(entries@).no_duplicates(),
            crate::keyed::entries_map(entries@) == mg,
            r.map().dom() == crate::keyed::entry_keys(entries@).take(i as int).to_set(),
            forall|n: Seq<char>| #[trigger] r.map().dom().contains(n) ==> {
                &&& r.map()[n].gateway == mg[n]
                &&& r.map()[n].http_routes.map() == routes_of(n, http_routes@)
                &&& r.map()[n].tcp_routes.map() == routes_of(n, tcp_routes@)
                &&& r.map()[n].tls_routes.map() == routes_of(n, tls_routes@)
            },
        decreases entries@.len() - i,
    {
        let name = &entries[i].0;
        let g = GatheredGateway {
            gateway: entries[i].1,
            http_routes: routes_of_gateway(name.as_str(), http_routes),
            tcp_routes: routes_of_gateway(name.as_str(), tcp_routes),
            tls_routes: routes_of_gateway(name.as_str(), tls_routes),
        };
        proof {
            crate::keyed::lemma_entries_map_at(entries@, i as int);
            let h = crate::keyed::entry_keys(entries@);
            assert(h.take(i + 1) =~= h.take(i as int).push(h[i as int]));
            crate::seqs::lemma_push_contains(h.take(i as int), h[i as int]);
        }
        r.insert(name.clone(), g);
        i = i + 1;
    }
    proof {
        let h = crate::keyed::entry_keys(entries@);
        assert(h.take(h.len() as int) =~= h);
        assert forall|n: Seq<char>| r.map().dom().contains(n) <==> mg.dom().contains(n) by {
            if mg.dom().contains(n) {
                assert(h.contains(n));
                assert(h.to_set().contains(n));
            }
            if r.map().dom().contains(n) {
                assert(h.to_set().contains(n));
                assert(h.contains(n));
            }
        }
        assert(r.map().dom() =~= mg.dom());
    }
    r
}

/// A route belongs to a gateway only through a route of that name that names the gateway
/// as a parent: the position kept is such a route's.
pub proof fn lemma_routes_name_their_gateway(gw: Seq<char>, routes: Seq<RouteInfo>, name: Seq<char>)
    requires
        routes.len() <= usize::MAX,
        routes_of(gw, routes).dom().contains(name),
    ensures
        0 <= routes_of(gw, routes)[name] < routes.len(),
        routes[routes_of(gw, routes)[name] as int].name@ == name,
        texts(routes[routes_of(gw, routes)[name] as int].parents@).contains(gw),
    decreases routes.len(),
{
    if routes.len() == 0 {
        assert(routes_of(gw, routes) == Map::<Seq<char>, usize>::empty());
    } else {
        let p = routes.drop_last();
        let m = routes_of(gw, p);
        let last = (routes.len() - 1) as int;
        assert(routes.last() == routes[last]);
        if texts(routes.last().parents@).contains(gw) && routes.last().name@ == name {
            assert(routes_of(gw, routes) == m.insert(name, last as usize));
            assert(routes_of(gw, routes)[name] == last as usize);
        } else {
            if texts(routes.last().parents@).contains(gw) {
                assert(routes_of(gw, routes) == m.insert(routes.last().name@, last as usize));
            } else {
                assert(routes_of(gw, routes) == m);
            }
            assert(m.dom().contains(name));
            assert(routes_of(gw, routes)[name] == m[name]);
            lemma_routes_name_their_gateway(gw, p, name);
            assert(routes[m[name] as int] == p[m[name] as int]);
        }
    }
}

/// A gateway is gathered only when its class is managed by the controller: the position
/// kept is that of a gateway of that name whose class is.
pub proof fn lemma_gathered_gateways_are_managed(controller: Seq<char>, classes: Seq<GatewayClassInfo>, gws: Seq<GatewayInfo>, name: Seq<char>)
    requires
        gws.len() <= usize::MAX,
        managed_gateways(controller, classes, gws).dom().contains(name),
    ensures
        0 <= managed_gateways(controller, classes, gws)[name] < gws.len(),
        gws[managed_gateways(controller, classes, gws)[name] as int].name@ == name,
        class_managed(controller, classes, gws[managed_gateways(controller, classes, gws)[name] as int].class_name@),
    decreases gws.len(),
{
    if gws.len() == 0 {
        assert(managed_gateways(controller, classes, gws) == Map::<Seq<char>, usize>::empty());
    } else {
        let p = gws.drop_last();
        let m = managed_gateways(controller, classes, p);
        let last = (gws.len() - 1) as int;
        assert(gws.last() == gws[last]);
        if class_managed(controller, classes, gws.last().class_name@) && gws.last().name@ == name {
            assert(managed_gateways(controller, classes, gws) == m.insert(name, last as usize));
            assert(managed_gateways(controller, classes, gws)[name] == last as usize);
        } else {
            if class_managed(controller, classes, gws.last().class_name@) {
                assert(managed_gateways(controller, classes, gws) == m.insert(gws.last().name@, last as usize));
            } else {
                assert(managed_gateways(controller, classes, gws) == m);
            }
            assert(m.dom().contains(name));
            assert(managed_gateways(controller, classes, gws)[name] == m[name]);
            lemma_gathered_gateways_are_managed(controller, classes, p, name);
            assert(gws[m[name] as int] == p[m[name] as int]);
        }
    }
}

} // verus!
