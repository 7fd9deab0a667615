//! Path-related configuration of mcat.

use vstd::prelude::*;
use vstd::string::*;

use crate::paths::path_file_name;

verus! {

/// The paths mcat works with.
#[derive(Debug)]
pub struct Config {
    pub mcat_dir: String,
    pub repo_file: String,
    pub cover_dir: String,
    pub lrc_dir: String,
    pub media_dir: String,
}

impl Default for Config {
    fn default() -> (r: Self)
        ensures
            r.mcat_dir@ == ".mcat/"@,
            r.repo_file@ == ".mcat/repo.toml"@,
            r.cover_dir@ == ".mcat/images/"@,
            r.lrc_dir@ == ".mcat/lyrics/"@,
            r.media_dir@ == "media/"@,
    {
        Config {
            mcat_dir: String::from_str(".mcat/"),
            repo_file: String::from_str(".mcat/repo.toml"),
            cover_dir: String::from_str(".mcat/images/"),
            lrc_dir: String::from_str(".mcat/lyrics/"),
            media_dir: String::from_str("media/"),
        }
    }
}

/// The path `p` with its extension replaced by `ext`, as
/// `PathBuf::set_extension` makes it.
pub uninterp spec fn path_with_extension(p: Seq<char>, ext: Seq<char>) -> Seq<char>;

/// Calls `PathBuf::set_extension` on `p`. Claimed: the result is a function
/// of the path and the extension alone, and, as its documentation says, a
/// path without a file name is left as it is. Where the new extension goes
/// in the text of a path that has one is left to the name: the
/// documentation does not say it for every path. The call panics on an extension
/// that holds a path separator ('/', or '\\' on Windows), which `requires`
/// rules out.
#[verifier::external_body]
fn set_extension(p: &str, ext: &str) -> (r: String)
    requires
        !ext@.contains('/'),
        !ext@.contains('\\'),
    ensures
        r@ == path_with_extension(p@, ext@),
        path_file_name(p@) is None ==> r@ == p@,
{
    let mut path = std::path::PathBuf::from(p);
    path.set_extension(ext);
    path.to_string_lossy().into_owned()
}

/// Returns path to repository file.
pub fn repo_file_path(config: &Config) -> (r: String)
    ensures
        r@ == config.repo_file@,
{
    config.repo_file.clone()
}

/// Returns path to repository backup file: the repository file with the
/// extension "bak".
pub fn repo_backup_file_path(config: &Config) -> (r: String)
    ensures
        r@ == path_with_extension(config.repo_file@, "bak"@),
        path_file_name(config.repo_file@) is None ==> r@ == config.repo_file@,
{
    proof {
        reveal_strlit("bak");
        assert(!"bak"@.contains('/')) by {
            assert forall|i: int| 0 <= i < "bak"@.len() implies "bak"@[i] != '/' by {}
        }
        assert(!"bak"@.contains('\\')) by {
            assert forall|i: int| 0 <= i < "bak"@.len() implies "bak"@[i] != '\\' by {}
        }
    }
    set_extension(config.repo_file.as_str(), "bak")
}

/// Returns path to cover images directory.
pub fn cover_dir_path(config: &Config) -> (r: String)
    ensures
        r@ == config.cover_dir@,
{
    config.cover_dir.clone()
}

/// Returns path to lyrics directory.
pub fn lrc_dir_path(config: &Config) -> (r: String)
    ensures
        r@ == config.lrc_dir@,
{
    config.lrc_dir.clone()
}

/// Returns path to media directory.
pub fn media_dir_path(config: &Config) -> (r: String)
    ensures
        r@ == config.media_dir@,
{
    config.media_dir.clone()
}

} // verus!
