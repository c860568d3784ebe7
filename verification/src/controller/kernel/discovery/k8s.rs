//! Kernels running as Kubernetes services.
use vstd::prelude::*;
use crate::text::{concat3, concat5, decimal, owned, same_text, u64_text};
use crate::keyed::KeyedVec;
use crate::controller::kernel::KernelAddr;

verus! {

/// The label selector of kernel services: `app.kubernetes.io/name=sbk` and
/// `switchboard.rs/discovery=enabled`.
pub open spec fn label_selector() -> Seq<char> {
    "app.kubernetes.io/name"@ + "="@ + "sbk"@ + ","@ + "switchboard.rs/discovery"@ + "="@ + "enabled"@
}

/// The label selector of kernel services.
pub fn sbk_label_selector() -> (s: String)
    ensures
        s@ == label_selector(),
{
    let mut s = concat3("app.kubernetes.io/name", "=", "sbk");
    s.append(",");
    s.append("switchboard.rs/discovery");
    s.append("=");
    s.append("enabled");
    s
}

/// The gRPC endpoint of a kernel service: `grpc://<service>.<namespace>.svc:<port>`.
pub open spec fn service_endpoint(service_name: Seq<char>, namespace: Seq<char>, port: u16) -> Seq<char> {
    "grpc://"@ + service_name + "."@ + namespace + "."@ + "svc"@ + ":"@ + decimal(port as nat)
}

/// The gRPC endpoint of a kernel service.
pub fn build_service_endpoint(service_name: &str, namespace: &str, port: u16) -> (r: String)
    ensures
        r@ == service_endpoint(service_name@, namespace@, port),
{
    let mut r = concat5("grpc://", service_name, ".", namespace, ".");
    r.append("svc");
    r.append(":");
    let digits = u64_text(port as u64);
    r.append(digits.as_str());
    r
}

/// A port of a service: its name and number.
#[derive(Debug)]
pub struct K8sServicePort {
    pub name: Option<String>,
    pub port: i32,
}

/// A port is named `grpc`.
pub open spec fn is_grpc_port(p: K8sServicePort) -> bool {
    p.name is Some && p.name->0@ == "grpc"@
}

/// `i` is the first port named `grpc`.
pub open spec fn first_grpc_at(ps: Seq<K8sServicePort>, i: int) -> bool {
    0 <= i < ps.len() && is_grpc_port(ps[i]) && forall|j: int| 0 <= j < i ==> !is_grpc_port(#[trigger] ps[j])
}

/// A port number, or `fallback` when it is not a `u16`.
pub open spec fn port_or(p: i32, fallback: u16) -> u16 {
    if 0 <= p <= u16::MAX { p as u16 } else { fallback }
}

/// The port used to reach a kernel service: the first of its ports named `grpc`, else its
/// first port; `fallback` when it has no ports (or no port list), or when the port chosen
/// has a number that is not a `u16`.
pub open spec fn selected_port(ports: Option<&Vec<K8sServicePort>>, fallback: u16) -> u16 {
    match ports {
        None => fallback,
        Some(v) => {
            let ps = v@;
            if exists|i: int| first_grpc_at(ps, i) {
                port_or(ps[choose|i: int| first_grpc_at(ps, i)].port, fallback)
            } else if ps.len() > 0 {
                port_or(ps[0].port, fallback)
            } else {
                fallback
            }
        },
    }
}

/// The port used to reach a kernel service, as `selected_port` says.
pub fn selected_service_port(ports: Option<&Vec<K8sServicePort>>, fallback: u16) -> (r: u16)
    ensures
        r == selected_port(ports, fallback),
{
    let ps = match ports {
        Some(p) => p,
        None => return fallback,
    };
    let mut i: usize = 0;
    while i < ps.len()
        invariant
            i <= ps@.len(),
            ports == Some(ps),
            forall|j: int| 0 <= j < i ==> !is_grpc_port(#[trigger] ps@[j]),
        decreases ps@.len() - i,
    {
        let named = match &ps[i].name {
            Some(n) => same_text(n.as_str(), "grpc"),
            None => false,
        };
        if named {
            proof {
                assert(first_grpc_at(ps@, i as int));
                assert forall|k: int| first_grpc_at(ps@, k) implies k == i by {
                    if k < i {
                        assert(!is_grpc_port(ps@[k]));
                    } else if k > i {
                        assert(!is_grpc_port(ps@[i as int]));
                    }
                }
            }
            proof {
                let c = choose|k: int| first_grpc_at(ps@, k);
                assert(c == i);
            }
            let p = ps[i].port;
            return if 0 <= p && p <= 65535 { p as u16 } else { fallback };
        }
        i = i + 1;
    }
    proof {
        assert forall|k: int| !first_grpc_at(ps@, k) by {
            if 0 <= k < ps@.len() {
                assert(!is_grpc_port(ps@[k]));
            }
        }
    }
    if ps.len() > 0 {
        let p = ps[0].port;
        if 0 <= p && p <= 65535 { p as u16 } else { fallback }
    } else {
        fallback
    }
}

/// The kernel service to try: its endpoint on the chosen port, when it has a namespace.
pub fn candidate_endpoint(
    service_name: &str,
    namespace: Option<&str>,
    ports: Option<&Vec<K8sServicePort>>,
    fallback: u16,
) -> (r: Option<String>)
    ensures
        r is Some <==> namespace is Some,
        r is Some ==> r->0@ == service_endpoint(service_name@, namespace->0@, selected_port(ports, fallback)),
{
    match namespace {
        None => None,
        Some(ns) => {
            let port = selected_service_port(ports, fallback);
            Some(build_service_endpoint(service_name, ns, port))
        },
    }
}

/// The kernels found among candidate endpoints, by kernel id: each answer is an endpoint
/// with the id of the kernel reached there, or `None` when it could not be reached. Kernels
/// not reached are skipped, and a later answer for an id replaces an earlier one.
pub open spec fn kernels_by_id_fold(s: Seq<(String, Option<String>)>) -> Map<Seq<char>, KernelAddr>
    decreases s.len(),
{
    if s.len() == 0 {
        Map::empty()
    } else {
        let m = kernels_by_id_fold(s.drop_last());
        match s.last().1 {
            Some(id) => m.insert(id@, KernelAddr::Grpc(s.last().0)),
            None => m,
        }
    }
}

/// The kernels found among candidate endpoints, by kernel id, as `kernels_by_id_fold` says.
pub fn kernels_by_id(answers: Vec<(String, Option<String>)>) -> (r: KeyedVec<String, KernelAddr>)
    ensures
        r.map() == kernels_by_id_fold(answers@),
{
    let ghost f = answers@;
    let mut r: KeyedVec<String, KernelAddr> = KeyedVec::new();
    let mut rest = answers;
    let n = rest.len();
    proof {
        assert(f.take(0) =~= Seq::<(String, Option<String>)>::empty());
    }
    while rest.len() > 0
        invariant
            rest@.len() <= n,
            n == f.len(),
            rest@ == f.subrange(n - rest@.len(), n as int),
            r.map() == kernels_by_id_fold(f.take(n - rest@.len())),
        decreases rest@.len(),
    {
        let ghost k = n - rest@.len();
        let (endpoint, id) = rest.remove(0);
        proof {
            assert(rest@ =~= f.subrange(k + 1, n as int));
            let t = f.take(k + 1);
            assert(t.drop_last() =~= f.take(k));
            assert(t.last() == f[k]);
        }
        match id {
            Some(id) => r.insert(id, KernelAddr::Grpc(endpoint)),
            None => {},
        }
    }
    assert(f.take(n as int) =~= f);
    r
}

/// Kernel services are those labelled `app.kubernetes.io/name=sbk` and
/// `switchboard.rs/discovery=enabled`, and a kernel service `<name>` in namespace `<ns>` is
/// reached at `grpc://<name>.<ns>.svc:<port>`.
pub proof fn lemma_kernel_service_texts(name: Seq<char>, ns: Seq<char>, port: u16)
    ensures
        label_selector() == "app.kubernetes.io/name=sbk,switchboard.rs/discovery=enabled"@,
        service_endpoint(name, ns, port) == "grpc://"@ + name + "."@ + ns + ".svc:"@ + decimal(port as nat),
{
    reveal_strlit("app.kubernetes.io/name=sbk,switchboard.rs/discovery=enabled");
    reveal_strlit("app.kubernetes.io/name");
    reveal_strlit("=");
    reveal_strlit("sbk");
    reveal_strlit(",");
    reveal_strlit("switchboard.rs/discovery");
    reveal_strlit("enabled");
    reveal_strlit(".");
    reveal_strlit("svc");
    reveal_strlit(":");
    reveal_strlit(".svc:");
    assert(label_selector() =~= "app.kubernetes.io/name=sbk,switchboard.rs/discovery=enabled"@);
    assert("grpc://"@ + name + "."@ + ns + "."@ + "svc"@ + ":"@ + decimal(port as nat)
        =~= "grpc://"@ + name + "."@ + ns + ".svc:"@ + decimal(port as nat));
}

} // verus!
