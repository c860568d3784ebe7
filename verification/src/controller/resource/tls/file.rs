//! TLS certificates kept as PEM files.
use vstd::prelude::*;
use crate::paths::{file_name_of, join_path, joined, opt_view, std_file_name};
use crate::text::{concat2, has_suffix, strip_suffix, texts};

verus! {

/// The directories searched for certificates.
#[derive(Debug)]
pub struct FileTlsResourceConfig {
    pub discovery_from_dirs: Vec<String>,
}

/// A certificate file and its key file.
#[derive(Debug)]
pub struct FileTlsCertResource {
    pub cert_path: String,
    pub key_path: String,
}

/// Why a certificate could not be read from files.
#[derive(Debug)]
pub enum FileTlsCertResourceError {
    /// The message of an I/O error.
    IoError(String),
    /// A PEM file could not be read (message of the error, and the file).
    ReadPemError { source: String, path: String },
    /// The PEM contents were not a certificate and key (message of the error).
    CertParamsError(String),
}

/// What a regular file in a searched directory offers: a file named `<name>.cert.pem`
/// offers certificate `<name>`, whose key is `<name>.key.pem` beside it (in `dir`), to take
/// when that key file exists.
pub fn cert_file_candidate(dir: &str, path: &str) -> (r: Option<(String, FileTlsCertResource)>)
    ensures
        r is Some <==> (std_file_name(path@) is Some && has_suffix(std_file_name(path@)->0, ".cert.pem"@)),
        r is Some ==> (r->0).0@ + ".cert.pem"@ == std_file_name(path@)->0
            && (r->0).1.cert_path@ == path@
            && (r->0).1.key_path@ == joined(dir@, (r->0).0@ + ".key.pem"@),
{
    match file_name_of(path) {
        Some(name) => match strip_suffix(name.as_str(), ".cert.pem") {
            Some(tls_name) => {
                let key_file = concat2(tls_name.as_str(), ".key.pem");
                let key_path = join_path(dir, key_file.as_str());
                Some((tls_name, FileTlsCertResource { cert_path: path.to_string(), key_path }))
            },
            None => None,
        },
        None => None,
    }
}

/// What a directory in a searched directory offers: `cert.pem` and `key.pem` inside it, to
/// take when both exist, under the directory's name (none when it has no name).
pub fn cert_dir_candidate(path: &str) -> (r: (Option<String>, FileTlsCertResource))
    ensures
        opt_view(r.0) == std_file_name(path@),
        r.1.cert_path@ == joined(path@, "cert.pem"@),
        r.1.key_path@ == joined(path@, "key.pem"@),
{
    let name = file_name_of(path);
    (name, FileTlsCertResource { cert_path: join_path(path, "cert.pem"), key_path: join_path(path, "key.pem") })
}

/// The directories to search for certificates: none without a configuration, else the
/// configured ones in order.
pub fn discovery_tls_cert_dirs(config: Option<&FileTlsResourceConfig>) -> (r: Vec<String>)
    ensures
        config is None ==> r@.len() == 0,
        config is Some ==> texts(r@) == texts(config->0.discovery_from_dirs@),
{
    match config {
        None => Vec::new(),
        Some(c) => {
            let mut r: Vec<String> = Vec::new();
            let mut i: usize = 0;
            while i < c.discovery_from_dirs.len()
                invariant
                    i <= c.discovery_from_dirs@.len(),
                    texts(r@) == texts(c.discovery_from_dirs@.take(i as int)),
                decreases c.discovery_from_dirs@.len() - i,
            {
                let ghost before = r@;
                let d = c.discovery_from_dirs[i].clone();
                assert(d@ == c.discovery_from_dirs@[i as int]@);
                r.push(d);
                proof {
                    assert(texts(r@) =~= texts(before).push(d@));
                    assert(c.discovery_from_dirs@.take(i + 1) =~= c.discovery_from_dirs@.take(i as int).push(c.discovery_from_dirs@[i as int]));
                    assert(texts(r@) =~= texts(c.discovery_from_dirs@.take(i + 1)));
                }
                i = i + 1;
            }
            assert(c.discovery_from_dirs@.take(c.discovery_from_dirs@.len() as int) =~= c.discovery_from_dirs@);
            r
        },
    }
}

} // verus!
