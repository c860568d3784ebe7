//! The usual places for TLS certificates on unix systems.
use vstd::prelude::*;
use crate::paths::{join_path, joined, opt_view};
use crate::text::{concat2, contains_text, owned, text_contains, texts};

verus! {

/// Where certificates are looked for.
#[derive(Debug)]
pub struct UnixTlsSearchPaths {
    /// The system's CA certificates.
    pub system_ca_paths: Vec<String>,
    /// The user's certificates.
    pub user_cert_paths: Vec<String>,
    /// Certificates of applications.
    pub app_cert_paths: Vec<String>,
}

/// A certificate and key found for a domain, and where they come from.
#[derive(Debug)]
pub struct CertificateLocation {
    pub cert_path: String,
    pub key_path: String,
    pub source: String,
}

/// The system CA directories (Debian/Ubuntu, RedHat/CentOS, Alpine).
pub open spec fn system_ca_dirs() -> Seq<Seq<char>> {
    seq!["/etc/ssl/certs"@, "/usr/share/ca-certificates"@, "/etc/pki/tls/certs"@,
        "/etc/pki/ca-trust/source/anchors"@, "/etc/ssl/certs"@]
}

/// The application certificate directories: switchboard's, Let's Encrypt's, and common ones.
pub open spec fn app_cert_dirs() -> Seq<Seq<char>> {
    seq!["/etc/switchboard/certs"@, "/etc/letsencrypt/live"@, "/etc/ssl/private"@, "/etc/pki/tls/private"@]
}

/// The user certificate directories for a home directory and a configuration directory:
/// `.ssl` and `.certs` under the home, `switchboard/certs` under the configuration.
pub open spec fn user_cert_dirs(home: Option<Seq<char>>, config: Option<Seq<char>>) -> Seq<Seq<char>> {
    let h = match home {
        Some(d) => seq![joined(d, ".ssl"@), joined(d, ".certs"@)],
        None => Seq::empty(),
    };
    match config {
        Some(c) => h.push(joined(c, "switchboard/certs"@)),
        None => h,
    }
}

/// Calls `dirs::home_dir`. Nothing is claimed: it depends on the environment.
#[verifier::external_body]
fn user_home_dir() -> (r: Option<String>) {
    dirs::home_dir().map(|p| p.to_string_lossy().into_owned())
}

/// Calls `dirs::config_dir`. Nothing is claimed: it depends on the environment.
#[verifier::external_body]
fn user_config_dir() -> (r: Option<String>) {
    dirs::config_dir().map(|p| p.to_string_lossy().into_owned())
}

impl UnixTlsSearchPaths {
    /// The search paths for a user with home directory `home` and configuration directory
    /// `config`.
    pub fn with_user_dirs(home: Option<String>, config: Option<String>) -> (p: Self)
        ensures
            texts(p.system_ca_paths@) == system_ca_dirs(),
            texts(p.user_cert_paths@) == user_cert_dirs(opt_view(home), opt_view(config)),
            texts(p.app_cert_paths@) == app_cert_dirs(),
    {
        let mut user_cert_paths: Vec<String> = Vec::new();
        match &home {
            Some(h) => {
                user_cert_paths.push(join_path(h.as_str(), ".ssl"));
                user_cert_paths.push(join_path(h.as_str(), ".certs"));
            },
            None => {},
        }
        match &config {
            Some(c) => {
                user_cert_paths.push(join_path(c.as_str(), "switchboard/certs"));
            },
            None => {},
        }
        let mut system_ca_paths: Vec<String> = Vec::new();
        system_ca_paths.push(owned("/etc/ssl/certs"));
        system_ca_paths.push(owned("/usr/share/ca-certificates"));
        system_ca_paths.push(owned("/etc/pki/tls/certs"));
        system_ca_paths.push(owned("/etc/pki/ca-trust/source/anchors"));
        system_ca_paths.push(owned("/etc/ssl/certs"));
        let mut app_cert_paths: Vec<String> = Vec::new();
        app_cert_paths.push(owned("/etc/switchboard/certs"));
        app_cert_paths.push(owned("/etc/letsencrypt/live"));
        app_cert_paths.push(owned("/etc/ssl/private"));
        app_cert_paths.push(owned("/etc/pki/tls/private"));
        let p = UnixTlsSearchPaths { system_ca_paths, user_cert_paths, app_cert_paths };
        assert(texts(p.system_ca_paths@) =~= system_ca_dirs());
        assert(texts(p.app_cert_paths@) =~= app_cert_dirs());
        assert(texts(p.user_cert_paths@) =~= user_cert_dirs(opt_view(home), opt_view(config)));
        p
    }

    /// The search paths for the current user.
    pub fn new() -> (p: Self)
        ensures
            texts(p.system_ca_paths@) == system_ca_dirs(),
            exists|h: Option<Seq<char>>, c: Option<Seq<char>>| texts(p.user_cert_paths@) == user_cert_dirs(h, c),
            texts(p.app_cert_paths@) == app_cert_dirs(),
    {
        let home = user_home_dir();
        let config = user_config_dir();
        Self::with_user_dirs(home, config)
    }

    /// The places a certificate for `domain` may be, in order: the Let's Encrypt directory
    /// of the domain (`fullchain.pem`, `privkey.pem`), to take when that directory exists,
    /// then `<domain>.crt` and `<domain>.key` in each application directory, to take when
    /// both files exist.
    pub fn certificate_candidates(&self, domain: &str) -> (r: (CertificateLocation, Vec<CertificateLocation>))
        ensures
            r.0.cert_path@ == joined(joined("/etc/letsencrypt/live"@, domain@), "fullchain.pem"@),
            r.0.key_path@ == joined(joined("/etc/letsencrypt/live"@, domain@), "privkey.pem"@),
            r.0.source@ == "letsencrypt"@,
            r.1@.len() == self.app_cert_paths@.len(),
            forall|i: int| 0 <= i < r.1@.len() ==> {
                &&& (#[trigger] r.1@[i]).cert_path@ == joined(self.app_cert_paths@[i]@, domain@ + ".crt"@)
                &&& r.1@[i].key_path@ == joined(self.app_cert_paths@[i]@, domain@ + ".key"@)
                &&& r.1@[i].source@ == "local"@
            },
    {
        let le_dir = join_path("/etc/letsencrypt/live", domain);
        let le = CertificateLocation {
            cert_path: join_path(le_dir.as_str(), "fullchain.pem"),
            key_path: join_path(le_dir.as_str(), "privkey.pem"),
            source: owned("letsencrypt"),
        };
        let cert_name = concat2(domain, ".crt");
        let key_name = concat2(domain, ".key");
        let mut local: Vec<CertificateLocation> = Vec::new();
        let mut i: usize = 0;
        while i < self.app_cert_paths.len()
            invariant
                i <= self.app_cert_paths@.len(),
                local@.len() == i,
                cert_name@ == domain@ + ".crt"@,
                key_name@ == domain@ + ".key"@,
                forall|k: int| 0 <= k < i ==> {
                    &&& (#[trigger] local@[k]).cert_path@ == joined(self.app_cert_paths@[k]@, domain@ + ".crt"@)
                    &&& local@[k].key_path@ == joined(self.app_cert_paths@[k]@, domain@ + ".key"@)
                    &&& local@[k].source@ == "local"@
                },
            decreases self.app_cert_paths@.len() - i,
        {
            let base = self.app_cert_paths[i].as_str();
            let loc = CertificateLocation {
                cert_path: join_path(base, cert_name.as_str()),
                key_path: join_path(base, key_name.as_str()),
                source: owned("local"),
            };
            let ghost before = local@;
            local.push(loc);
            assert forall|k: int| 0 <= k < i + 1 implies {
                &&& (#[trigger] local@[k]).cert_path@ == joined(self.app_cert_paths@[k]@, domain@ + ".crt"@)
                &&& local@[k].key_path@ == joined(self.app_cert_paths@[k]@, domain@ + ".key"@)
                &&& local@[k].source@ == "local"@
            } by {
                if k < i {
                    assert(local@[k] == before[k]);
                }
            }
            i = i + 1;
        }
        (le, local)
    }
}

/// Whether the system described by `os_release` is a RedHat-like one.
pub open spec fn is_redhat_like(os_release: Seq<char>) -> bool {
    contains_text(os_release, "CentOS"@) || contains_text(os_release, "Red Hat"@)
}

/// The certificate and private key directories of the system described by the contents of
/// `/etc/os-release`: `/etc/pki/tls/...` on CentOS or Red Hat (unless it also names Ubuntu
/// or Debian), `/etc/ssl/...` otherwise.
pub fn system_cert_paths_for(os_release: &str) -> (r: Vec<String>)
    ensures
        texts(r@) == if !(contains_text(os_release@, "Ubuntu"@) || contains_text(os_release@, "Debian"@))
            && is_redhat_like(os_release@) {
            seq!["/etc/pki/tls/certs"@, "/etc/pki/tls/private"@]
        } else {
            seq!["/etc/ssl/certs"@, "/etc/ssl/private"@]
        },
{
    let debian_like = text_contains(os_release, "Ubuntu") || text_contains(os_release, "Debian");
    let redhat_like = text_contains(os_release, "CentOS") || text_contains(os_release, "Red Hat");
    let mut r: Vec<String> = Vec::new();
    if !debian_like && redhat_like {
        r.push(owned("/etc/pki/tls/certs"));
        r.push(owned("/etc/pki/tls/private"));
    } else {
        r.push(owned("/etc/ssl/certs"));
        r.push(owned("/etc/ssl/private"));
    }
    assert(texts(r@) =~= if !debian_like && redhat_like {
        seq!["/etc/pki/tls/certs"@, "/etc/pki/tls/private"@]
    } else {
        seq!["/etc/ssl/certs"@, "/etc/ssl/private"@]
    });
    r
}

} // verus!
