//! Path text helpers.
//!
//! Paths are handled as plain `/`-separated strings: enough to take a path
//! apart around its last separator and to join a file name onto a directory.

use vstd::prelude::*;

verus! {

/// The index of the last `/` in `p`, or `-1` when there is none.
pub open spec fn last_slash(p: Seq<char>) -> int
    decreases p.len(),
{
    if p.len() == 0 {
        -1
    } else if p.last() == '/' {
        p.len() - 1
    } else {
        last_slash(p.drop_last())
    }
}

/// The directory part of `p`: everything before the last `/`, empty when
/// `p` holds no `/`.
pub open spec fn parent_dir(p: Seq<char>) -> Seq<char> {
    if last_slash(p) < 0 {
        Seq::empty()
    } else {
        p.take(last_slash(p))
    }
}

/// The final component of `p`: everything after the last `/`.
pub open spec fn base_name(p: Seq<char>) -> Seq<char> {
    p.skip(last_slash(p) + 1)
}

proof fn lemma_last_slash_bounds(p: Seq<char>)
    ensures
        -1 <= last_slash(p) < p.len(),
    decreases p.len(),
{
    if p.len() == 0 {
    } else if p.last() == '/' {
    } else {
        lemma_last_slash_bounds(p.drop_last());
    }
}

proof fn lemma_last_slash_at(p: Seq<char>, k: int)
    requires
        0 <= k < p.len(),
        p[k] == '/',
        forall|t: int| k < t < p.len() ==> p[t] != '/',
    ensures
        last_slash(p) == k,
    decreases p.len(),
{
    if k == p.len() - 1 {
    } else {
        assert(p.last() != '/');
        assert(forall|t: int| k < t < p.len() - 1 ==> #[trigger] p.drop_last()[t] == p[t]);
        lemma_last_slash_at(p.drop_last(), k);
    }
}

proof fn lemma_no_slash(p: Seq<char>)
    requires
        forall|t: int| 0 <= t < p.len() ==> p[t] != '/',
    ensures
        last_slash(p) == -1,
    decreases p.len(),
{
    if p.len() == 0 {
    } else {
        assert(forall|t: int| 0 <= t < p.len() - 1 ==> #[trigger] p.drop_last()[t] == p[t]);
        lemma_no_slash(p.drop_last());
    }
}

/// The position just past the last `/` of `s`: `last_slash(s@) + 1`,
/// which is 0 when `s` holds no `/`.
fn last_slash_end(s: &str) -> (r: usize)
    ensures
        r as int == last_slash(s@) + 1,
{
    let n = s.unicode_len();
    let mut r: usize = 0;
    let mut j: usize = 0;
    while j < n
        invariant
            n == s@.len(),
            j <= n,
            r <= j,
            r == 0 ==> forall|t: int| 0 <= t < j ==> s@[t] != '/',
            r > 0 ==> r - 1 < j && s@[r - 1] == '/' && forall|t: int|
                r <= t < j ==> s@[t] != '/',
        decreases n - j,
    {
        if s.get_char(j) == '/' {
            r = j + 1;
        }
        j = j + 1;
    }
    proof {
        if r == 0 {
            lemma_no_slash(s@);
        } else {
            lemma_last_slash_at(s@, r - 1);
        }
    }
    r
}

/// The directory part of `p`, as [`parent_dir`] describes.
pub fn parent_of(p: &str) -> (r: String)
    ensures
        r@ == parent_dir(p@),
{
    proof {
        lemma_last_slash_bounds(p@);
    }
    let e = last_slash_end(p);
    if e == 0 {
        let r = String::new();
        proof {
            assert(r@ =~= parent_dir(p@));
        }
        r
    } else {
        p.substring_char(0, e - 1).to_owned()
    }
}

/// The final component of `p`, as [`base_name`] describes.
pub fn base_of(p: &str) -> (r: String)
    ensures
        r@ == base_name(p@),
{
    proof {
        lemma_last_slash_bounds(p@);
    }
    let e = last_slash_end(p);
    let n = p.unicode_len();
    p.substring_char(e, n).to_owned()
}

/// Whether two strings hold the same characters.
pub fn str_eq(a: &str, b: &str) -> (r: bool)
    ensures
        r == (a@ == b@),
{
    let na = a.unicode_len();
    let nb = b.unicode_len();
    if na != nb {
        return false;
    }
    let mut i: usize = 0;
    while i < na
        invariant
            na == a@.len(),
            nb == b@.len(),
            na == nb,
            i <= na,
            forall|t: int| 0 <= t < i ==> a@[t] == b@[t],
        decreases na - i,
    {
        if a.get_char(i) != b.get_char(i) {
            return false;
        }
        i = i + 1;
    }
    proof {
        assert(a@ =~= b@);
    }
    true
}

/// The path of `name` inside directory `dir`: joined with a `/` unless `dir`
/// is empty or already ends with one.
pub open spec fn join_path(dir: Seq<char>, name: Seq<char>) -> Seq<char> {
    if dir.len() == 0 {
        name
    } else if dir.last() == '/' {
        dir + name
    } else {
        dir + seq!['/'] + name
    }
}

/// Joins `name` onto `dir`, as [`join_path`] describes.
pub fn join(dir: &str, name: &str) -> (r: String)
    ensures
        r@ == join_path(dir@, name@),
{
    let n = dir.unicode_len();
    let mut out = dir.to_owned();
    if n > 0 && dir.get_char(n - 1) != '/' {
        out.append("/");
        proof {
            reveal_strlit("/");
            assert(out@ =~= dir@ + seq!['/']);
        }
    }
    out.append(name);
    proof {
        assert(out@ =~= join_path(dir@, name@));
    }
    out
}

} // verus!
