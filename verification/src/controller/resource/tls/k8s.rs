//! TLS certificates held in Kubernetes secrets.
use vstd::prelude::*;
use crate::keyed::KeyedVec;
use crate::text::{concat4, owned, texts};

verus! {

/// The namespace the controller's own resources live in.
pub open spec fn default_namespace() -> Seq<char> {
    "switchboard"@
}

/// The namespaces whose TLS secrets are offered.
#[derive(Debug)]
pub struct K8sTlsResourceConfig {
    pub discovery_from_namespaces: Vec<String>,
}

impl Default for K8sTlsResourceConfig {
    /// Only the controller's own namespace.
    fn default() -> (c: Self)
        ensures
            c.discovery_from_namespaces@.len() == 1,
            c.discovery_from_namespaces@[0]@ == default_namespace(),
    {
        let mut v: Vec<String> = Vec::new();
        v.push(owned("switchboard"));
        K8sTlsResourceConfig { discovery_from_namespaces: v }
    }
}

/// Why a certificate could not be had from a secret.
#[derive(Debug)]
pub enum K8sTlsCertResourceError {
    NoK8sClient,
    /// The message of a Kubernetes API error.
    K8sApiError(String),
    MissingSecretData,
    MissingKey,
    MissingCert,
}

/// A TLS secret.
#[derive(Debug)]
pub struct K8sTlsCertResource {
    pub secret_name: String,
    pub namespace: String,
}

impl Default for K8sTlsCertResource {
    /// The secret `tls` in namespace `default`.
    fn default() -> (r: Self)
        ensures
            r.secret_name@ == "tls"@,
            r.namespace@ == "default"@,
    {
        K8sTlsCertResource { secret_name: owned("tls"), namespace: owned("default") }
    }
}

/// The certificate chain and private key of a TLS endpoint (PEM bytes), and its OCSP
/// response if any.
#[derive(Debug)]
pub struct TlsCertParams {
    pub certs: Vec<Vec<u8>>,
    pub key: Vec<u8>,
    pub ocsp: Option<Vec<u8>>,
}

/// The name under which a TLS secret is offered: `k8s://<namespace>/<name>`.
pub open spec fn secret_resource_name(namespace: Seq<char>, name: Seq<char>) -> Seq<char> {
    "k8s://"@ + namespace + "/"@ + name
}

/// A TLS secret found in `namespace`, with the name it is offered under (a secret without
/// a name is taken as named by the empty text).
pub fn discovered_secret(namespace: &str, name: Option<String>) -> (r: (String, K8sTlsCertResource))
    ensures
        r.1.namespace@ == namespace@,
        r.1.secret_name@ == match name { Some(n) => n@, None => Seq::<char>::empty() },
        r.0@ == secret_resource_name(namespace@, r.1.secret_name@),
{
    let secret_name = match name {
        Some(n) => n,
        None => String::new(),
    };
    let key = concat4("k8s://", namespace, "/", secret_name.as_str());
    (key, K8sTlsCertResource { secret_name, namespace: namespace.to_string() })
}

/// The certificate of a TLS secret from its data: `tls.crt` is the one certificate of the
/// chain and `tls.key` the key. Missing data, then a missing certificate, then a missing
/// key, are reported in that order.
pub fn cert_params_from_secret_data(data: Option<&KeyedVec<String, Vec<u8>>>) -> (r: Result<TlsCertParams, K8sTlsCertResourceError>)
    ensures
        data is None ==> r matches Err(K8sTlsCertResourceError::MissingSecretData),
        data is Some && !data->0.map().dom().contains("tls.crt"@) ==> r matches Err(K8sTlsCertResourceError::MissingCert),
        data is Some && data->0.map().dom().contains("tls.crt"@) && !data->0.map().dom().contains("tls.key"@)
            ==> r matches Err(K8sTlsCertResourceError::MissingKey),
        data is Some && data->0.map().dom().contains("tls.crt"@) && data->0.map().dom().contains("tls.key"@) ==> r is Ok
            && r->Ok_0.certs@.len() == 1
            && r->Ok_0.certs@[0]@ == data->0.map()["tls.crt"@]@
            && r->Ok_0.key@ == data->0.map()["tls.key"@]@
            && r->Ok_0.ocsp is None,
{
    let data = match data {
        Some(d) => d,
        None => return Err(K8sTlsCertResourceError::MissingSecretData),
    };
    let crt_key = owned("tls.crt");
    let cert = match data.get(&crt_key) {
        Some(c) => c.clone(),
        None => return Err(K8sTlsCertResourceError::MissingCert),
    };
    let key_key = owned("tls.key");
    let key = match data.get(&key_key) {
        Some(k) => k.clone(),
        None => return Err(K8sTlsCertResourceError::MissingKey),
    };
    let mut certs: Vec<Vec<u8>> = Vec::new();
    certs.push(cert);
    Ok(TlsCertParams { certs, key, ocsp: None })
}

/// The TLS secrets found, by the name each is offered under, as (namespace, secret name):
/// each secret listed, in order, a later one replacing an earlier one of the same name.
pub open spec fn secrets_fold(s: Seq<(String, Option<String>)>) -> Map<Seq<char>, (Seq<char>, Seq<char>)>
    decreases s.len(),
{
    if s.len() == 0 {
        Map::empty()
    } else {
        let n = match s.last().1 { Some(n) => n@, None => Seq::<char>::empty() };
        secrets_fold(s.drop_last()).insert(secret_resource_name(s.last().0@, n), (s.last().0@, n))
    }
}

/// The namespace and secret name of each offered secret.
pub open spec fn secrets_view(m: Map<Seq<char>, K8sTlsCertResource>) -> Map<Seq<char>, (Seq<char>, Seq<char>)> {
    m.map_values(|r: K8sTlsCertResource| (r.namespace@, r.secret_name@))
}

/// The TLS secrets offered. Without a configuration there are none; without a cluster
/// client (`listed` is `None`) discovery fails with `NoK8sClient`; otherwise `listed` holds
/// the TLS secrets the cluster listed in the configured namespaces (namespace and secret
/// name), and each is offered under `k8s://<namespace>/<name>`.
pub fn discovery_tls_cert_from_k8s(
    config: Option<&K8sTlsResourceConfig>,
    listed: Option<Vec<(String, Option<String>)>>,
) -> (r: Result<KeyedVec<String, K8sTlsCertResource>, K8sTlsCertResourceError>)
    ensures
        config is None ==> r is Ok && r->Ok_0.map() == Map::<Seq<char>, K8sTlsCertResource>::empty(),
        config is Some && listed is None ==> r is Err && r->Err_0 is NoK8sClient,
        config is Some && listed is Some ==> r is Ok && secrets_view(r->Ok_0.map()) == secrets_fold(listed->0@),
{
    match config {
        None => Ok(KeyedVec::new()),
        Some(_) => match listed {
            None => Err(K8sTlsCertResourceError::NoK8sClient),
            Some(found) => {
                let ghost f = found@;
                let mut r: KeyedVec<String, K8sTlsCertResource> = KeyedVec::new();
                let mut rest = found;
                let n = rest.len();
                proof {
                    assert(f.take(0) =~= Seq::<(String, Option<String>)>::empty());
                    assert(secrets_view(r.map()) =~= Map::<Seq<char>, (Seq<char>, Seq<char>)>::empty());
                }
                while rest.len() > 0
                    invariant
                        rest@.len() <= n,
                        n == f.len(),
                        rest@ == f.subrange(n - rest@.len(), n as int),
                        secrets_view(r.map()) == secrets_fold(f.take(n - rest@.len())),
                    decreases rest@.len(),
                {
                    let ghost k = n - rest@.len();
                    let ghost before = r.map();
                    let (namespace, name) = rest.remove(0);
                    proof {
                        assert(rest@ =~= f.subrange(k + 1, n as int));
                        let t = f.take(k + 1);
                        assert(t.drop_last() =~= f.take(k));
                        assert(t.last() == f[k]);
                    }
                    let (key, resource) = discovered_secret(namespace.as_str(), name);
                    let ghost kv = key@;
                    let ghost rv = (resource.namespace@, resource.secret_name@);
                    r.insert(key, resource);
                    proof {
                        assert(secrets_view(r.map()) =~= secrets_view(before).insert(kv, rv));
                    }
                }
                assert(f.take(n as int) =~= f);
                Ok(r)
            },
        },
    }
}

} // verus!
