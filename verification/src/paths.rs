//! Paths are held as text; joining them and asking the file system about
//! them goes through std.

use vstd::prelude::*;

verus! {

/// The text of `base` joined with `rest` by std's `Path::join`: the rules of
/// that join (separators, absolute `rest`, prefixes) are those of the
/// platform, so the result is named and not spelled out.
pub uninterp spec fn path_join(base: Seq<char>, rest: Seq<char>) -> Seq<char>;

/// Joins `rest` onto `base` with std's `Path::join` and displays the result.
/// Claimed: the text is `path_join` of the two arguments' texts, so equal
/// arguments give equal results. Both arguments are UTF-8, so `display`
/// loses nothing.
#[verifier::external_body]
pub fn join_path(base: &str, rest: &str) -> (r: String)
    ensures
        r@ == path_join(base@, rest@),
{
    std::path::Path::new(base).join(rest).display().to_string()
}

/// Asks the file system whether `path` names a regular file, through std's
/// `Path::is_file`. Nothing is claimed of the answer: it depends on the disk.
#[verifier::external_body]
pub fn is_file(path: &str) -> bool {
    std::path::Path::new(path).is_file()
}

/// Asks the file system whether `path` names a directory, through std's
/// `Path::is_dir`. Nothing is claimed of the answer: it depends on the disk.
#[verifier::external_body]
pub fn is_dir(path: &str) -> bool {
    std::path::Path::new(path).is_dir()
}

} // verus!
