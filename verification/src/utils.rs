//! Where the app's files are found.
use vstd::prelude::*;

verus! {

/// The path that `Path::new(base).join(rel)` gives, as text.
pub uninterp spec fn joined_path(base: Seq<char>, rel: Seq<char>) -> Seq<char>;

/// `Path::join` of `relative` onto `base`. The result depends on the two
/// paths alone; how they are put together (a separator, or `relative` itself
/// when it is absolute) is the platform's path syntax and is left unsaid.
#[verifier::external_body]
pub(crate) fn path_join(base: &str, relative: &str) -> (r: String)
    ensures
        r@ == joined_path(base@, relative@),
{
    std::path::Path::new(base).join(relative).to_string_lossy().into_owned()
}

/// Resolve a path relative to the executable's directory, when that is known.
pub fn asset_path(exe_dir: Option<&str>, relative: &str) -> (r: Option<String>)
    ensures
        match exe_dir {
            Some(d) => r matches Some(p) && p@ == joined_path(d@, relative@),
            None => r is None,
        },
{
    match exe_dir {
        Some(d) => Some(path_join(d, relative)),
        None => None,
    }
}

/// The folder of the app's settings and caches: `PopMax` in the local
/// application-data folder, when that is known.
pub fn get_load_path(local_app_data: Option<&str>) -> (r: Option<String>)
    ensures
        match local_app_data {
            Some(d) => r matches Some(p) && p@ == joined_path(d@, "PopMax"@),
            None => r is None,
        },
{
    match local_app_data {
        Some(d) => Some(path_join(d, "PopMax")),
        None => None,
    }
}

} // verus!
