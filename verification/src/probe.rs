//! What the finder learns from the running process and from the file system
//! through the crates `process_path` and `walkdir`.
use crate::paths::path_starts_with;
use vstd::prelude::*;
use walkdir::WalkDir;

verus! {

/// Calls `process_path::get_executable_path`: the path of the running
/// executable, `None` where it cannot be determined. Nothing is claimed of
/// the result: it depends on the process.
#[verifier::external_body]
pub(crate) fn executable_path() -> Option<String> {
    process_path::get_executable_path().map(|p| p.to_string_lossy().into_owned())
}

/// Calls `process_path::get_dylib_path`: the path of the current dynamic
/// library, `None` where it cannot be determined. Nothing is claimed of the result:
/// it depends on the process.
#[verifier::external_body]
pub(crate) fn dylib_path() -> Option<String> {
    process_path::get_dylib_path().map(|p| p.to_string_lossy().into_owned())
}

/// Walks the directory tree at `root` with `walkdir::WalkDir`, following
/// symbolic links and descending at most `max_depth` levels (`root` itself
/// is at depth 0). Each entry walkdir yields becomes its path and its depth
/// (`DirEntry::path`, `DirEntry::depth`), or `None` where walkdir yields an
/// error for it.
///
/// Claimed, as walkdir documents: an entry's path is `root` joined with the
/// entry's path below it, so it starts with `root` (the lossy text of a
/// path keeps the text of `root`, which is valid), and no entry is deeper
/// than `max_depth`. Which entries there are depends on the file system and
/// is not claimed.
#[verifier::external_body]
pub(crate) fn walk_entries(root: &str, max_depth: usize) -> (r: Vec<Option<(String, usize)>>)
    ensures
        forall|i: int|
            0 <= i < r.len() ==> match #[trigger] r@[i] {
                Some((p, d)) => path_starts_with(p@, root@) && d <= max_depth,
                None => true,
            },
{
    WalkDir::new(root)
        .max_depth(max_depth)
        .follow_links(true)
        .into_iter()
        .map(|e| e.ok().map(|d| (d.path().to_string_lossy().into_owned(), d.depth())))
        .collect()
}

} // verus!
