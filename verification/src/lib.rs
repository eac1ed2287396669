//! cown: resolution of CODEOWNERS-style ownership rules.
//!
//! The crate compiles the lines of one ownership file into glob-backed rules
//! and answers, for a repository-relative path, which rule's owners apply.
//! Later lines take precedence over earlier ones; lookups scan the rules in
//! precedence order and return the owners of the first match.

pub mod locate;
pub mod owners;
pub mod paths;
pub mod pattern;
pub mod text;

use vstd::prelude::*;

verus! {

} // verus!
