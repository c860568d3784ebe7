//! `sbk`: the kernel program and its HTTP plugins.
use vstd::prelude::*;
use crate::paths::{extension_of, std_extension};
use crate::text::{has_suffix, strip_suffix};

verus! {

/// The arguments of `sbk`: its configuration file.
#[derive(Debug)]
pub struct CliArgs {
    pub config: String,
}

/// The file extension of loadable plugin libraries.
pub open spec fn plugin_library_extension() -> Seq<char> {
    "so"@
}

/// A plugin entry ending in `/*` names a directory whose libraries are all loaded; the
/// directory is the entry without that ending.
pub fn plugin_dir(entry: &str) -> (r: Option<String>)
    ensures
        r is Some <==> has_suffix(entry@, "/*"@),
        r is Some ==> r->0@ + "/*"@ == entry@,
{
    strip_suffix(entry, "/*")
}

/// Whether a (regular) file is a plugin library, by its extension.
pub fn is_plugin_library(path: &str) -> (b: bool)
    ensures
        b == (std_extension(path@) == Some(plugin_library_extension())),
{
    match extension_of(path) {
        Some(ext) => crate::text::same_text(ext.as_str(), "so"),
        None => false,
    }
}

/// A file named `<stem>.so` with a stem that is not empty is a plugin library; a file whose
/// name has no `.` after its first character is not.
pub proof fn lemma_plugin_libraries(path: Seq<char>, stem: Seq<char>)
    ensures
        crate::paths::std_file_name(path) == Some(stem + seq!['.'] + "so"@) && stem.len() > 0
            ==> crate::paths::std_extension(path) == Some(plugin_library_extension()),
        (crate::paths::std_file_name(path) is Some && forall|i: int| 0 < i < crate::paths::std_file_name(path)->0.len()
            ==> crate::paths::std_file_name(path)->0[i] != '.')
            ==> crate::paths::std_extension(path) != Some(plugin_library_extension()),
{
    reveal_strlit("so");
    if crate::paths::std_file_name(path) == Some(stem + seq!['.'] + "so"@) && stem.len() > 0 {
        crate::paths::lemma_stem_and_extension(path, stem, "so"@);
    }
    if crate::paths::std_file_name(path) is Some && forall|i: int| 0 < i < crate::paths::std_file_name(path)->0.len()
        ==> crate::paths::std_file_name(path)->0[i] != '.' {
        crate::paths::lemma_no_extension(path, crate::paths::std_file_name(path)->0);
    }
}

} // verus!
