//! Where the controller keeps its data.
use vstd::prelude::*;
use crate::paths::{join_path, joined, opt_view};
use crate::text::has_suffix;

verus! {

/// The data directory under the user's data directory `base` (`/var/lib` when there is
/// none): `<base>/switchboard`.
pub open spec fn data_dir_in(base: Option<Seq<char>>) -> Seq<char> {
    joined(match base { Some(b) => b, None => "/var/lib"@ }, "switchboard"@)
}

/// Calls `dirs::data_dir`. Nothing is claimed of the result: it depends on the environment.
#[verifier::external_body]
fn user_data_dir() -> (r: Option<String>) {
    dirs::data_dir().map(|p| p.to_string_lossy().into_owned())
}

/// The data directory for the user's data directory `base`.
pub fn data_dir_under(base: Option<String>) -> (r: String)
    ensures
        r@ == data_dir_in(opt_view(base)),
{
    match base {
        Some(b) => join_path(b.as_str(), "switchboard"),
        None => join_path("/var/lib", "switchboard"),
    }
}

/// The controller's data directory, named after the application, under the user's data
/// directory (or `/var/lib`).
pub fn data_dir() -> (r: String)
    ensures
        exists|base: Option<Seq<char>>| r@ == data_dir_in(base),
{
    let base = user_data_dir();
    data_dir_under(base)
}

/// The local configuration database for the user's data directory `base`: `config.db` in
/// the data directory.
pub fn config_local_db_path_under(base: Option<String>) -> (r: String)
    ensures
        r@ == joined(data_dir_in(opt_view(base)), "config.db"@),
{
    let d = data_dir_under(base);
    join_path(d.as_str(), "config.db")
}

/// The local configuration database: `config.db` in the data directory.
pub fn config_local_db_path() -> (r: String)
    ensures
        exists|base: Option<Seq<char>>| r@ == joined(data_dir_in(base), "config.db"@),
{
    let base = user_data_dir();
    config_local_db_path_under(base)
}

} // verus!
