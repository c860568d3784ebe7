//! File system paths held as text (Unix conventions).
use vstd::prelude::*;
use crate::text::{chars_of, concat2, concat3, owned, string_of_range};

verus! {

/// The text of an optional string.
pub open spec fn opt_view(o: Option<String>) -> Option<Seq<char>> {
    match o {
        Some(s) => Some(s@),
        None => None,
    }
}

/// A path is absolute when it starts at the root.
pub open spec fn is_absolute(p: Seq<char>) -> bool {
    p.len() > 0 && p[0] == '/'
}

/// `dir` with `name` pushed onto it, as `PathBuf::push` does: an absolute `name` replaces
/// `dir`; otherwise a separator goes between them unless `dir` is empty or already ends
/// with one.
pub open spec fn joined(dir: Seq<char>, name: Seq<char>) -> Seq<char> {
    if is_absolute(name) {
        name
    } else if dir.len() == 0 || dir.last() == '/' {
        dir + name
    } else {
        dir + seq!['/'] + name
    }
}

/// Whether a path is absolute.
pub fn path_is_absolute(p: &str) -> (b: bool)
    ensures
        b == is_absolute(p@),
{
    p.unicode_len() > 0 && p.get_char(0) == '/'
}

/// `dir` joined with `name`.
pub fn join_path(dir: &str, name: &str) -> (r: String)
    ensures
        r@ == joined(dir@, name@),
{
    if path_is_absolute(name) {
        owned(name)
    } else {
        let n = dir.unicode_len();
        if n == 0 || dir.get_char(n - 1) == '/' {
            concat2(dir, name)
        } else {
            proof {
                reveal_strlit("/");
                assert("/"@ =~= seq!['/']);
            }
            concat3(dir, "/", name)
        }
    }
}

/// The last component of a path, as `Path::file_name` gives it.
pub uninterp spec fn std_file_name(path: Seq<char>) -> Option<Seq<char>>;

/// `i` is the position of the last `.` of `name`.
pub open spec fn last_dot_at(name: Seq<char>, i: int) -> bool {
    0 <= i < name.len() && name[i] == '.' && forall|j: int| i < j < name.len() ==> name[j] != '.'
}

/// A file name splits into stem and extension at its last `.`, unless that dot is its
/// first character (a name such as `.bashrc` is all stem).
pub open spec fn splits_at_dot(name: Seq<char>) -> bool {
    exists|i: int| last_dot_at(name, i) && i > 0
}

/// Where a file name splits.
pub open spec fn split_dot(name: Seq<char>) -> int {
    choose|i: int| last_dot_at(name, i) && i > 0
}

/// The file name of a path without its extension, as `Path::file_stem` documents it: no
/// stem without a file name; the part before the last `.` when the name splits there; the
/// whole name otherwise.
pub open spec fn std_file_stem(path: Seq<char>) -> Option<Seq<char>> {
    match std_file_name(path) {
        None => None,
        Some(n) => Some(if splits_at_dot(n) { n.take(split_dot(n)) } else { n }),
    }
}

/// The extension of a path's file name, as `Path::extension` documents it: the part after
/// the last `.` when the name splits there; none otherwise.
pub open spec fn std_extension(path: Seq<char>) -> Option<Seq<char>> {
    match std_file_name(path) {
        None => None,
        Some(n) => if splits_at_dot(n) { Some(n.skip(split_dot(n) + 1)) } else { None },
    }
}

/// Whether `base` is a prefix of `path`, whole component by whole component, as
/// `Path::starts_with` decides it.
pub uninterp spec fn std_starts_with(path: Seq<char>, base: Seq<char>) -> bool;

/// Calls `std::path::Path::file_name`. Claimed: the result is the named file name of `path`
/// (a syntactic function of the text alone).
#[verifier::external_body]
pub(crate) fn file_name_of(path: &str) -> (r: Option<String>)
    ensures
        opt_view(r) == std_file_name(path@),
{
    std::path::Path::new(path).file_name().map(|n| n.to_string_lossy().into_owned())
}

/// Where the file name `name` splits into stem and extension, if it does.
fn split_of(name: &str) -> (r: (Vec<char>, Option<usize>))
    ensures
        r.0@ == name@,
        r.1 is Some <==> splits_at_dot(name@),
        r.1 is Some ==> r.1->0 as int == split_dot(name@) && r.1->0 < name@.len(),
{
    let v = chars_of(name);
    let mut i: usize = v.len();
    while i > 0
        invariant
            i <= v@.len(),
            v@ == name@,
            forall|j: int| i <= j < v@.len() ==> v@[j] != '.',
        decreases i,
    {
        if v[i - 1] == '.' {
            let d = i - 1;
            proof {
                assert(last_dot_at(name@, d as int));
                assert forall|k: int| last_dot_at(name@, k) implies k == d by {
                    if k < d {
                        assert(name@[d as int] == '.');
                    }
                }
            }
            if d > 0 {
                proof {
                    assert(splits_at_dot(name@));
                    let c = split_dot(name@);
                    assert(last_dot_at(name@, c));
                }
                return (v, Some(d));
            } else {
                proof {
                    assert forall|k: int| !(last_dot_at(name@, k) && k > 0) by {}
                }
                return (v, None);
            }
        }
        i = i - 1;
    }
    proof {
        assert forall|k: int| !last_dot_at(name@, k) by {}
    }
    (v, None)
}

/// The stem of the file name of `path`.
pub(crate) fn file_stem_of(path: &str) -> (r: Option<String>)
    ensures
        opt_view(r) == std_file_stem(path@),
{
    match file_name_of(path) {
        None => None,
        Some(name) => {
            let (v, split) = split_of(name.as_str());
            match split {
                Some(d) => Some(string_of_range(&v, 0, d)),
                None => Some(name),
            }
        },
    }
}

/// The extension of the file name of `path`.
pub(crate) fn extension_of(path: &str) -> (r: Option<String>)
    ensures
        opt_view(r) == std_extension(path@),
{
    match file_name_of(path) {
        None => None,
        Some(name) => {
            let (v, split) = split_of(name.as_str());
            match split {
                Some(d) => {
                    assert(d < v@.len());
                    assert(v@.len() == v.len());
                    Some(string_of_range(&v, d + 1, v.len()))
                },
                None => None,
            }
        },
    }
}

/// Calls `std::path::Path::starts_with`. Claimed: the result is the named component-wise
/// prefix test of `path` and `base`.
#[verifier::external_body]
pub(crate) fn path_starts_with(path: &str, base: &str) -> (b: bool)
    ensures
        b == std_starts_with(path@, base@),
{
    std::path::Path::new(path).starts_with(base)
}

/// A file named `<stem>.<ext>`, with a stem that is not empty and an extension without `.`,
/// has that stem and that extension.
pub proof fn lemma_stem_and_extension(path: Seq<char>, stem: Seq<char>, ext: Seq<char>)
    requires
        std_file_name(path) == Some(stem + seq!['.'] + ext),
        stem.len() > 0,
        forall|i: int| 0 <= i < ext.len() ==> ext[i] != '.',
    ensures
        std_file_stem(path) == Some(stem),
        std_extension(path) == Some(ext),
{
    let n = stem + seq!['.'] + ext;
    let d = stem.len() as int;
    assert(n[d] == '.');
    assert forall|j: int| d < j < n.len() implies n[j] != '.' by {
        assert(n[j] == ext[j - d - 1]);
    }
    assert(last_dot_at(n, d));
    assert(splits_at_dot(n));
    let c = split_dot(n);
    assert(last_dot_at(n, c) && c > 0);
    if c < d {
        assert(n[d] != '.');
    } else if c > d {
        assert(n[c] != '.');
    }
    assert(n.take(d) =~= stem);
    assert(n.skip(d + 1) =~= ext);
}

/// A file whose name has no `.` after its first character has no extension, and its stem
/// is the whole name.
pub proof fn lemma_no_extension(path: Seq<char>, name: Seq<char>)
    requires
        std_file_name(path) == Some(name),
        forall|i: int| 0 < i < name.len() ==> name[i] != '.',
    ensures
        std_extension(path) is None,
        std_file_stem(path) == Some(name),
{
    if splits_at_dot(name) {
        let c = split_dot(name);
        assert(last_dot_at(name, c) && c > 0);
        assert(name[c] == '.');
    }
}

} // verus!
