//! Kernels on this machine that announce themselves with a `.run` file.
use vstd::prelude::*;
use crate::paths::{extension_of, file_stem_of, std_extension, std_file_stem};
use crate::text::same_text;

verus! {

/// A regular file announces a local kernel when its extension is `run` and it has a stem.
pub open spec fn announces_kernel(path: Seq<char>) -> bool {
    std_extension(path) == Some("run"@) && std_file_stem(path) is Some
}

/// Whether the regular file at `path` announces a local kernel (its contents then describe
/// the kernel).
pub fn is_kernel_run_file(path: &str) -> (b: bool)
    ensures
        b == announces_kernel(path@),
{
    let ext_ok = match extension_of(path) {
        Some(e) => same_text(e.as_str(), "run"),
        None => false,
    };
    ext_ok && file_stem_of(path).is_some()
}

/// A file named `<id>.run` with an id that is not empty announces a kernel; a file whose
/// name has no `.` after its first character does not.
pub proof fn lemma_run_files(path: Seq<char>, id: Seq<char>)
    ensures
        crate::paths::std_file_name(path) == Some(id + seq!['.'] + "run"@) && id.len() > 0 ==> announces_kernel(path),
        (crate::paths::std_file_name(path) is Some && forall|i: int| 0 < i < crate::paths::std_file_name(path)->0.len()
            ==> crate::paths::std_file_name(path)->0[i] != '.') ==> !announces_kernel(path),
{
    reveal_strlit("run");
    if crate::paths::std_file_name(path) == Some(id + seq!['.'] + "run"@) && id.len() > 0 {
        crate::paths::lemma_stem_and_extension(path, id, "run"@);
    }
    if crate::paths::std_file_name(path) is Some && forall|i: int| 0 < i < crate::paths::std_file_name(path)->0.len()
        ==> crate::paths::std_file_name(path)->0[i] != '.' {
        crate::paths::lemma_no_extension(path, crate::paths::std_file_name(path)->0);
    }
}

} // verus!
