//! Glob pattern normalization and matching.
//!
//! A raw pattern token is normalized before compilation: a token that does
//! not already start with `*` or `/` is prefixed with `**/` so that a bare
//! name matches at any depth; a single leading `/` is stripped, since lookup
//! paths are already relative to the rule file's root; a trailing `/` has
//! `**` appended so that a directory pattern covers everything beneath the
//! directory. The normalized text is compiled by the `glob` crate, whose
//! matcher supplies the `*` / `**` / `?` path semantics.

use vstd::prelude::*;

verus! {

/// Whether the `glob` crate accepts `pattern` as a valid glob.
pub uninterp spec fn glob_compiles(pattern: Seq<char>) -> bool;

/// The pattern text a `glob::Pattern` was compiled from.
pub uninterp spec fn pattern_src(p: glob::Pattern) -> Seq<char>;

/// Whether the compiled glob for `pattern` accepts `path`.
pub uninterp spec fn glob_accepts(pattern: Seq<char>, path: Seq<char>) -> bool;

#[verifier::external_type_specification]
#[verifier::external_body]
pub struct ExPattern(glob::Pattern);

/// Relies on `glob::Pattern::new`: whether compilation succeeds is a function
/// of the pattern text alone, and the compiled matcher keeps that text.
#[verifier::external_body]
pub(crate) fn glob_new(pattern: &str) -> (r: Result<glob::Pattern, String>)
    ensures
        r is Ok <==> glob_compiles(pattern@),
        r matches Ok(p) ==> pattern_src(p) == pattern@,
{
    match glob::Pattern::new(pattern) {
        Ok(p) => Ok(p),
        Err(e) => Err(e.to_string()),
    }
}

/// Relies on `glob::Pattern::matches`: whether a pattern accepts a path is a
/// function of the pattern text and the path alone.
#[verifier::external_body]
pub(crate) fn glob_match(p: &glob::Pattern, path: &str) -> (r: bool)
    ensures
        r == glob_accepts(pattern_src(*p), path@),
{
    p.matches(path)
}

/// The normalized form of a raw pattern token.
pub open spec fn normalize(tok: Seq<char>) -> Seq<char>
    recommends
        tok.len() > 0,
{
    let prefixed = if tok.len() > 0 && (tok[0] == '*' || tok[0] == '/') {
        tok
    } else {
        seq!['*', '*', '/'] + tok
    };
    let stripped = if prefixed.len() > 0 && prefixed[0] == '/' {
        prefixed.skip(1)
    } else {
        prefixed
    };
    if stripped.len() > 0 && stripped.last() == '/' {
        stripped + seq!['*', '*']
    } else {
        stripped
    }
}

/// Normalizes a raw pattern token as [`normalize`] describes.
pub fn normalize_pattern(tok: &str) -> (r: String)
    requires
        tok@.len() > 0,
    ensures
        r@ == normalize(tok@),
{
    let c0 = tok.get_char(0);
    let prefixed: String = if c0 == '*' || c0 == '/' {
        tok.to_owned()
    } else {
        let mut p = String::new();
        p.append("**/");
        p.append(tok);
        proof {
            reveal_strlit("**/");
            assert(p@ =~= seq!['*', '*', '/'] + tok@);
        }
        p
    };
    let plen = prefixed.as_str().unicode_len();
    let stripped: String = if prefixed.as_str().get_char(0) == '/' {
        prefixed.as_str().substring_char(1, plen).to_owned()
    } else {
        prefixed
    };
    let mut out = stripped;
    let olen = out.as_str().unicode_len();
    if olen > 0 && out.as_str().get_char(olen - 1) == '/' {
        out.append("**");
        proof {
            reveal_strlit("**");
            assert(out@ =~= normalize(tok@));
        }
    }
    out
}

} // verus!
