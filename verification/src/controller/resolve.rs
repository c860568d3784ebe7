//! Producing service configuration from outside sources, through named resolvers.
use vstd::prelude::*;
use crate::keyed::KeyedVec;
use crate::text::owned;

pub mod fs;
pub mod k8s;

verus! {

/// The settings of each resolver.
#[derive(Debug)]
pub struct ResolveConfig {
    pub fs: fs::FsResolveConfig,
    pub k8s: k8s::K8sResolveConfig,
}

/// The name and description of a resolver.
#[derive(Debug)]
pub struct ServiceConfigResolverMeta {
    pub name: String,
    pub description: Option<String>,
}

/// A registered resolver `R` and its name and description.
#[derive(Debug)]
pub struct ServiceConfigResolverItem<R> {
    pub meta: ServiceConfigResolverMeta,
    pub resolver: R,
}

/// Why resolving failed.
#[derive(Debug)]
pub enum ResolveServiceConfigError {
    /// No resolver has this name.
    ResolverNotFound(String),
    /// The resolver failed (message of its error).
    ResolveError(String),
    /// The resolver's settings could not be read (message of the error).
    DeserializeConfigError(String),
}

/// The resolvers, by name.
#[derive(Debug)]
pub struct ServiceConfigResolverRegistry<R> {
    pub resolvers: KeyedVec<String, ServiceConfigResolverItem<R>>,
}

/// The name of the file system resolver.
pub open spec fn fs_resolver_name() -> Seq<char> {
    "fs"@
}

/// The name of the Kubernetes resolver.
pub open spec fn k8s_resolver_name() -> Seq<char> {
    "k8s"@
}

/// `meta` is the name and description of some registered resolver.
pub open spec fn is_listed_meta<R>(m: Map<Seq<char>, ServiceConfigResolverItem<R>>, meta: &ServiceConfigResolverMeta) -> bool {
    exists|k: Seq<char>| m.dom().contains(k) && meta == &m[k].meta
}

impl<R> ServiceConfigResolverRegistry<R> {
    /// No resolvers.
    pub fn new() -> (r: Self)
        ensures
            r.resolvers.map() == Map::<Seq<char>, ServiceConfigResolverItem<R>>::empty(),
    {
        ServiceConfigResolverRegistry { resolvers: KeyedVec::new() }
    }

    /// Registers `resolver` under the name in `meta`, replacing one of the same name.
    pub fn register_resolver(&mut self, meta: ServiceConfigResolverMeta, resolver: R)
        ensures
            final(self).resolvers.map() == old(self).resolvers.map().insert(meta.name@,
                ServiceConfigResolverItem { meta, resolver }),
    {
        let name = meta.name.clone();
        let item = ServiceConfigResolverItem { meta, resolver };
        self.resolvers.insert(name, item);
    }

    /// The built-in resolvers: `fs` (the file system) and `k8s` (Kubernetes).
    pub fn prelude(fs_resolver: R, k8s_resolver: R) -> (r: Self)
        ensures
            r.resolvers.map().dom() == set![fs_resolver_name(), k8s_resolver_name()],
            r.resolvers.map()[fs_resolver_name()].resolver == fs_resolver,
            r.resolvers.map()[fs_resolver_name()].meta.description
                == Some(r.resolvers.map()[fs_resolver_name()].meta.description->0),
            r.resolvers.map()[fs_resolver_name()].meta.description->0@ == "Filesystem-based ServiceConfig resolver"@,
            r.resolvers.map()[k8s_resolver_name()].resolver == k8s_resolver,
            r.resolvers.map()[k8s_resolver_name()].meta.description
                == Some(r.resolvers.map()[k8s_resolver_name()].meta.description->0),
            r.resolvers.map()[k8s_resolver_name()].meta.description->0@ == "Kubernetes-based ServiceConfig resolver"@,
            forall|n: Seq<char>| #[trigger] r.resolvers.map().dom().contains(n) ==> r.resolvers.map()[n].meta.name@ == n,
    {
        let mut registry = Self::new();
        registry.register_resolver(ServiceConfigResolverMeta {
            name: owned("fs"),
            description: Some(owned("Filesystem-based ServiceConfig resolver")),
        }, fs_resolver);
        registry.register_resolver(ServiceConfigResolverMeta {
            name: owned("k8s"),
            description: Some(owned("Kubernetes-based ServiceConfig resolver")),
        }, k8s_resolver);
        proof {
            reveal_strlit("fs");
            reveal_strlit("k8s");
            assert("fs"@ != "k8s"@) by {
                assert("fs"@.len() != "k8s"@.len());
            }
            assert(registry.resolvers.map().dom() =~= set![fs_resolver_name(), k8s_resolver_name()]);
        }
        registry
    }

    /// The name and description of each resolver, one per resolver.
    pub fn list_resolvers(&self) -> (r: Vec<&ServiceConfigResolverMeta>)
        ensures
            r@.len() == self.resolvers.map().dom().len(),
            forall|i: int| 0 <= i < r@.len() ==> is_listed_meta(self.resolvers.map(), #[trigger] r@[i]),
            forall|k: Seq<char>| #[trigger] self.resolvers.map().dom().contains(k)
                ==> exists|i: int| 0 <= i < r@.len() && r@[i] == &self.resolvers.map()[k].meta,
    {
        let entries = self.resolvers.entries();
        let mut r: Vec<&ServiceConfigResolverMeta> = Vec::new();
        let mut i: usize = 0;
        while i < entries.len()
            invariant
                i <= entries@.len(),
                r@.len() == i,
                forall|k: int| 0 <= k < i ==> #[trigger] r@[k] == &entries@[k].1.meta,
            decreases entries@.len() - i,
        {
            r.push(&entries[i].1.meta);
            i = i + 1;
        }
        proof {
            let m = self.resolvers.map();
            assert forall|i: int| 0 <= i < r@.len() implies is_listed_meta(m, #[trigger] r@[i]) by {
                crate::keyed::lemma_entries_map_at(entries@, i);
                let k = entries@[i].0@;
                assert(m.dom().contains(k) && r@[i] == &m[k].meta);
            }
            assert forall|k: Seq<char>| #[trigger] m.dom().contains(k)
                implies exists|i: int| 0 <= i < r@.len() && r@[i] == &m[k].meta by {
                let h = crate::keyed::entry_keys(entries@);
                assert(h.contains(k));
                let j = choose|j: int| 0 <= j < h.len() && h[j] == k;
                crate::keyed::lemma_entries_map_at(entries@, j);
                assert(r@[j] == &m[k].meta);
            }
        }
        r
    }

    /// The resolver named `resolver`.
    pub fn resolve(&self, resolver: &str) -> (r: Result<&R, ResolveServiceConfigError>)
        ensures
            r is Ok <==> self.resolvers.map().dom().contains(resolver@),
            r is Ok ==> *r->Ok_0 == self.resolvers.map()[resolver@].resolver,
            r is Err ==> r->Err_0 == ResolveServiceConfigError::ResolverNotFound(r->Err_0->ResolverNotFound_0)
                && r->Err_0->ResolverNotFound_0@ == resolver@,
    {
        let key = resolver.to_string();
        match self.resolvers.get(&key) {
            Some(item) => Ok(&item.resolver),
            None => Err(ResolveServiceConfigError::ResolverNotFound(key)),
        }
    }
}

} // verus!
