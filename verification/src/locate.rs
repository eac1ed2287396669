//! Selection of the ownership file that applies to a repository.
//!
//! A repository keeps its ownership file in one of three standard places,
//! checked in fixed precedence order: `.github/CODEOWNERS`, `docs/CODEOWNERS`,
//! then `CODEOWNERS` at the directory itself. Whether each candidate exists
//! on disk is the caller's to discover; this module only picks.

use vstd::prelude::*;

use crate::paths::{join, join_path};

verus! {

/// The candidate chosen inside `dir`, given which of the three standard
/// locations exist: the first existing one in precedence order.
pub open spec fn located_codeowners(
    dir: Seq<char>,
    in_github: bool,
    in_docs: bool,
    at_top: bool,
) -> Option<Seq<char>> {
    if in_github {
        Some(join_path(join_path(dir, ".github"@), "CODEOWNERS"@))
    } else if in_docs {
        Some(join_path(join_path(dir, "docs"@), "CODEOWNERS"@))
    } else if at_top {
        Some(join_path(dir, "CODEOWNERS"@))
    } else {
        None
    }
}

/// Picks the ownership file to read inside `dir`. `in_github`, `in_docs` and
/// `at_top` report whether `.github/CODEOWNERS`, `docs/CODEOWNERS` and
/// `CODEOWNERS` exist there; the first existing candidate wins.
pub fn locate_codeowners_in_dir(dir: &str, in_github: bool, in_docs: bool, at_top: bool) -> (r:
    Option<String>)
    ensures
        match r {
            Some(p) => located_codeowners(dir@, in_github, in_docs, at_top) == Some(p@),
            None => located_codeowners(dir@, in_github, in_docs, at_top) is None,
        },
{
    if in_github {
        let sub = join(dir, ".github");
        Some(join(sub.as_str(), "CODEOWNERS"))
    } else if in_docs {
        let sub = join(dir, "docs");
        Some(join(sub.as_str(), "CODEOWNERS"))
    } else if at_top {
        Some(join(dir, "CODEOWNERS"))
    } else {
        None
    }
}

/// The ownership file that applies to files under `repo_root`: the first
/// existing candidate among the standard locations of that root. Finding the
/// root itself, and testing the candidates on disk, are the caller's concern
/// (version control and filesystem); the selection is made here.
pub fn find_codeowner_file_for(repo_root: &str, in_github: bool, in_docs: bool, at_top: bool) -> (r:
    Option<String>)
    ensures
        match r {
            Some(p) => located_codeowners(repo_root@, in_github, in_docs, at_top) == Some(p@),
            None => located_codeowners(repo_root@, in_github, in_docs, at_top) is None,
        },
{
    locate_codeowners_in_dir(repo_root, in_github, in_docs, at_top)
}

} // verus!
