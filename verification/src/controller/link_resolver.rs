//! Links: where a configuration or a value can be found.
use vstd::prelude::*;
use crate::text::{concat2, concat4, has_prefix, strip_prefix};

verus! {

/// A parsed URI (of the `http` crate).
#[verifier::external_type_specification]
#[verifier::external_body]
pub struct ExUri(http::Uri);

/// The error of a text that is not a URI (of the `http` crate).
#[verifier::external_type_specification]
#[verifier::external_body]
pub struct ExInvalidUri(http::uri::InvalidUri);

/// Whether the `http` crate reads a text as a URI.
pub uninterp spec fn uri_accepts(s: Seq<char>) -> bool;

/// The text that `http::Uri`'s `Display` gives for the URI read from a text.
pub uninterp spec fn uri_shown(s: Seq<char>) -> Seq<char>;

/// Calls `str::parse::<http::Uri>` and, on success, the URI's `Display`. Claimed: it
/// succeeds exactly on the texts named by `uri_accepts`, and the text it gives back is the
/// one named by `uri_shown`; both are functions of the text alone. Nothing else is claimed
/// of the URI.
#[verifier::external_body]
fn parse_uri(s: &str) -> (r: Result<(http::Uri, String), http::uri::InvalidUri>)
    ensures
        r is Ok == uri_accepts(s@),
        r is Ok ==> r->Ok_0.1@ == uri_shown(s@),
{
    match s.parse::<http::Uri>() {
        Ok(u) => {
            let shown = u.to_string();
            Ok((u, shown))
        },
        Err(e) => Err(e),
    }
}

/// Calls `http::Uri`'s `Display`. Nothing is claimed of the text: the URI is opaque here.
#[verifier::external_body]
fn uri_text(u: &http::Uri) -> (r: String) {
    u.to_string()
}

/// A stored object, named by the descriptor text that follows `storage://`.
#[derive(Debug)]
pub struct StorageObjectDescriptor {
    pub descriptor: String,
}

/// Where a value lives: a file, an HTTP resource (with the text it is shown as), or an
/// object in the controller's storage.
#[derive(Debug)]
pub enum Link {
    FilePath(String),
    Http(http::Uri, String),
    Storage(StorageObjectDescriptor),
}

/// Why a text is not a link.
#[derive(Debug)]
pub enum LinkParseError {
    InvalidUri(http::uri::InvalidUri),
    InvalidStorageDescriptor,
    Other(String),
}

/// The result is the link to the file `p`.
pub open spec fn is_file_link(r: Result<Link, LinkParseError>, p: Seq<char>) -> bool {
    match r {
        Ok(Link::FilePath(q)) => q@ == p,
        _ => false,
    }
}

/// The result is an HTTP link shown as `t`.
pub open spec fn is_http_link(r: Result<Link, LinkParseError>, t: Seq<char>) -> bool {
    match r {
        Ok(Link::Http(_, q)) => q@ == t,
        _ => false,
    }
}

/// The result is the link to the stored object with descriptor `d`.
pub open spec fn is_storage_link(r: Result<Link, LinkParseError>, d: Seq<char>) -> bool {
    match r {
        Ok(Link::Storage(q)) => q.descriptor@ == d,
        _ => false,
    }
}

impl Link {
    /// The link to a file.
    pub fn file_path(path: String) -> (l: Link)
        ensures
            l == Link::FilePath(path),
    {
        Link::FilePath(path)
    }

    /// The link to an HTTP resource, kept with the text the URI is shown as.
    pub fn http(uri: http::Uri) -> (l: Link)
        ensures
            l matches Link::Http(u, _) && u == uri,
    {
        let shown = uri_text(&uri);
        Link::Http(uri, shown)
    }

    /// The link to a stored object.
    pub fn storage(descriptor: StorageObjectDescriptor) -> (l: Link)
        ensures
            l == Link::Storage(descriptor),
    {
        Link::Storage(descriptor)
    }

    /// Reads a link: `file://<path>`, `storage://<descriptor>`, or else a URI.
    pub fn from_str(s: &str) -> (r: Result<Link, LinkParseError>)
        ensures
            has_prefix(s@, "file://"@) ==> is_file_link(r, s@.subrange(7, s@.len() as int)),
            !has_prefix(s@, "file://"@) && has_prefix(s@, "storage://"@) ==>
                is_storage_link(r, s@.subrange(10, s@.len() as int)),
            !has_prefix(s@, "file://"@) && !has_prefix(s@, "storage://"@) ==>
                (r is Ok <==> uri_accepts(s@))
                && (r is Ok ==> is_http_link(r, uri_shown(s@)))
                && (r is Err ==> r->Err_0 is InvalidUri),
    {
        proof {
            reveal_strlit("file://");
            reveal_strlit("storage://");
        }
        match strip_prefix(s, "file://") {
            Some(path) => Ok(Link::FilePath(path)),
            None => match strip_prefix(s, "storage://") {
                Some(d) => Ok(Link::Storage(StorageObjectDescriptor { descriptor: d })),
                None => match parse_uri(s) {
                    Ok((u, shown)) => Ok(Link::Http(u, shown)),
                    Err(e) => Err(LinkParseError::InvalidUri(e)),
                },
            },
        }
    }

    /// The text of a link: `file://<path>`, the URI as shown, or `storage://<descriptor>`.
    pub fn to_string(&self) -> (r: String)
        ensures
            match self {
                Link::FilePath(p) => r@ == "file://"@ + p@,
                Link::Storage(d) => r@ == "storage://"@ + d.descriptor@,
                Link::Http(_, t) => r@ == t@,
            },
    {
        match self {
            Link::FilePath(p) => concat2("file://", p.as_str()),
            Link::Http(_, t) => t.clone(),
            Link::Storage(d) => concat2("storage://", d.descriptor.as_str()),
        }
    }
}

/// The text of a file link reads back as the same file link: it starts with `file://`,
/// and what follows is the path.
pub proof fn lemma_file_link_round_trip(path: Seq<char>)
    ensures
        has_prefix("file://"@ + path, "file://"@),
        ("file://"@ + path).subrange(7, ("file://"@ + path).len() as int) == path,
{
    reveal_strlit("file://");
    assert(("file://"@ + path).subrange(0, 7) =~= "file://"@);
    assert(("file://"@ + path).subrange(7, ("file://"@ + path).len() as int) =~= path);
}

/// The text of a storage link reads back as the same storage link, unless it would read
/// as a file link.
pub proof fn lemma_storage_link_round_trip(descriptor: Seq<char>)
    ensures
        has_prefix("storage://"@ + descriptor, "storage://"@),
        !has_prefix("storage://"@ + descriptor, "file://"@),
        ("storage://"@ + descriptor).subrange(10, ("storage://"@ + descriptor).len() as int) == descriptor,
{
    reveal_strlit("file://");
    reveal_strlit("storage://");
    let t = "storage://"@ + descriptor;
    assert(t.subrange(0, 10) =~= "storage://"@);
    assert(t.subrange(10, t.len() as int) =~= descriptor);
    assert(t[0] == 's');
    assert("file://"@[0] == 'f');
    if has_prefix(t, "file://"@) {
        assert(t.subrange(0, 7)[0] == t[0]);
    }
}

/// Why a link could not be resolved or written.
#[derive(Debug)]
pub enum LinkResolveError {
    LinkParseError(LinkParseError),
    /// The message of a storage error.
    StorageError(String),
    /// The message of a file error.
    FileResolveError(String),
    NotFound { link: Link },
    NoImplementation { link: Link },
}

/// Where the value of a link is read from or written to.
#[derive(Debug)]
pub enum LinkSource {
    File(String),
    Storage(StorageObjectDescriptor),
}

/// Where a link's value lives: a file or a stored object; HTTP links have no
/// implementation.
pub fn link_source(link: Link) -> (r: Result<LinkSource, LinkResolveError>)
    ensures
        match link {
            Link::FilePath(p) => r matches Ok(LinkSource::File(q)) && q == p,
            Link::Storage(d) => r matches Ok(LinkSource::Storage(e)) && e == d,
            Link::Http(u, t) => r matches Err(LinkResolveError::NoImplementation { link: l }) && l == Link::Http(u, t),
        },
{
    match link {
        Link::FilePath(p) => Ok(LinkSource::File(p)),
        Link::Storage(d) => Ok(LinkSource::Storage(d)),
        Link::Http(u, t) => Err(LinkResolveError::NoImplementation { link: Link::Http(u, t) }),
    }
}

/// The stored value found for a link, or `NotFound` for that link.
pub fn found<T>(link: Link, value: Option<T>) -> (r: Result<T, LinkResolveError>)
    ensures
        match value {
            Some(v) => r matches Ok(w) && w == v,
            None => r matches Err(LinkResolveError::NotFound { link: l }) && l == link,
        },
{
    match value {
        Some(v) => Ok(v),
        None => Err(LinkResolveError::NotFound { link }),
    }
}

/// The result is the file `p`.
pub open spec fn is_file_source(r: Result<LinkSource, LinkResolveError>, p: Seq<char>) -> bool {
    match r {
        Ok(LinkSource::File(q)) => q@ == p,
        _ => false,
    }
}

/// The result is the stored object with descriptor `d`.
pub open spec fn is_storage_source(r: Result<LinkSource, LinkResolveError>, d: Seq<char>) -> bool {
    match r {
        Ok(LinkSource::Storage(q)) => q.descriptor@ == d,
        _ => false,
    }
}

/// Where a value given for the link text `link` is to be written; a text that is not a
/// link is refused with its parse error.
pub fn save_target(link: &str) -> (r: Result<LinkSource, LinkResolveError>)
    ensures
        has_prefix(link@, "file://"@) ==> is_file_source(r, link@.subrange(7, link@.len() as int)),
        !has_prefix(link@, "file://"@) && has_prefix(link@, "storage://"@) ==>
            is_storage_source(r, link@.subrange(10, link@.len() as int)),
        !has_prefix(link@, "file://"@) && !has_prefix(link@, "storage://"@) ==>
            (r is Err && (uri_accepts(link@) ==> r->Err_0 is NoImplementation)
                && (!uri_accepts(link@) ==> r->Err_0 is LinkParseError)),
{
    match Link::from_str(link) {
        Ok(l) => link_source(l),
        Err(e) => Err(LinkResolveError::LinkParseError(e)),
    }
}

/// The link of a value saved in storage under `id` at `revision`.
pub fn saved_storage_link(id: &str, revision: &str) -> (r: String)
    ensures
        r@ == "storage://"@ + id@ + "#"@ + revision@,
{
    concat4("storage://", id, "#", revision)
}

} // verus!
