//! Where things lie: the configuration file and the per-category links,
//! all under the configuration directory (`~/.vm`).

use vstd::prelude::*;

verus! {

/// What `Path::join` gives for `base` and `child`, as a string.
pub uninterp spec fn joined_path(base: Seq<char>, child: Seq<char>) -> Seq<char>;

/// Joins `child` onto `base`.
///
/// Calls `std::path::Path::join`; the result of joining two UTF-8 paths is
/// UTF-8, so the conversion back loses nothing. The contract claims that
/// the result depends on the two arguments alone, and names it
/// `joined_path`; where the separator goes is left unsaid (it depends on
/// the platform the crate is built for).
#[verifier::external_body]
pub(crate) fn join_path(base: &str, child: &str) -> (r: String)
    ensures
        r@ == joined_path(base@, child@),
{
    std::path::Path::new(base).join(child).to_string_lossy().into_owned()
}

/// The configuration file, `config.toml` in the configuration directory.
pub fn config_path(config_dir: &str) -> (r: String)
    ensures
        r@ == joined_path(config_dir@, "config.toml"@),
{
    join_path(config_dir, "config.toml")
}

/// The directory of a category, which is also its link: the category's
/// name in the configuration directory.
pub fn category_dir(config_dir: &str, name: &str) -> (r: String)
    ensures
        r@ == joined_path(config_dir@, name@),
{
    join_path(config_dir, name)
}

/// The `bin` directory under `dir`.
pub fn bin_subdir(dir: &str) -> (r: String)
    ensures
        r@ == joined_path(dir@, "bin"@),
{
    join_path(dir, "bin")
}

} // verus!
