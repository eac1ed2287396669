//! Whitespace tokenization of one directive line.
//!
//! A directive line is split on runs of whitespace into tokens; the rule
//! compiler reads the first token as the path pattern and the rest as owner
//! identifiers. Whitespace here means the ASCII whitespace characters.

use vstd::prelude::*;

verus! {

/// The characters treated as token separators.
pub open spec fn is_space(c: char) -> bool {
    c == ' ' || c == '\t' || c == '\n' || c == '\r' || c == '\x0b' || c == '\x0c'
}

/// Exec mirror of [`is_space`].
pub fn is_space_char(c: char) -> (r: bool)
    ensures
        r == is_space(c),
{
    c == ' ' || c == '\t' || c == '\n' || c == '\r' || c == '\x0b' || c == '\x0c'
}

/// The tokens of `s` from position `i` on: maximal runs of non-space
/// characters, in order.
pub open spec fn tokens_from(s: Seq<char>, i: int) -> Seq<Seq<char>>
    decreases s.len() - i,
{
    if i < 0 || i >= s.len() {
        Seq::empty()
    } else if is_space(s[i]) {
        tokens_from(s, i + 1)
    } else if i + 1 == s.len() || is_space(s[i + 1]) {
        seq![seq![s[i]]] + tokens_from(s, i + 1)
    } else {
        let rest = tokens_from(s, i + 1);
        seq![seq![s[i]] + rest[0]] + rest.skip(1)
    }
}

/// The whitespace-separated tokens of `s`.
pub open spec fn tokens(s: Seq<char>) -> Seq<Seq<char>> {
    tokens_from(s, 0)
}

/// A maximal non-space run `s[i..j)` is one whole token, followed by the
/// tokens of the remainder.
proof fn lemma_token_block(s: Seq<char>, i: int, j: int)
    requires
        0 <= i < j <= s.len(),
        forall|k: int| i <= k < j ==> !is_space(s[k]),
        j == s.len() || is_space(s[j]),
    ensures
        tokens_from(s, i) == seq![s.subrange(i, j)] + tokens_from(s, j),
    decreases j - i,
{
    if i + 1 == j {
        assert(s.subrange(i, j) =~= seq![s[i]]);
        assert(tokens_from(s, i) == seq![seq![s[i]]] + tokens_from(s, i + 1));
    } else {
        lemma_token_block(s, i + 1, j);
        let rest = tokens_from(s, i + 1);
        assert(rest[0] == s.subrange(i + 1, j));
        assert(seq![s[i]] + s.subrange(i + 1, j) =~= s.subrange(i, j));
        assert(rest.skip(1) =~= tokens_from(s, j));
        assert(tokens_from(s, i) =~= seq![s.subrange(i, j)] + tokens_from(s, j));
    }
}

/// Every token is a nonempty sequence.
pub proof fn lemma_tokens_nonempty(s: Seq<char>, i: int)
    ensures
        forall|k: int| 0 <= k < tokens_from(s, i).len() ==> #[trigger] tokens_from(s, i)[k].len()
            > 0,
    decreases s.len() - i,
{
    if i < 0 || i >= s.len() {
    } else {
        lemma_tokens_nonempty(s, i + 1);
        let rest = tokens_from(s, i + 1);
        if is_space(s[i]) {
        } else if i + 1 == s.len() || is_space(s[i + 1]) {
            assert(forall|k: int|
                0 <= k < tokens_from(s, i).len() ==> #[trigger] tokens_from(s, i)[k] == (seq![
                    seq![s[i]],
                ] + rest)[k]);
        } else {
            assert(forall|k: int|
                0 <= k < tokens_from(s, i).len() ==> #[trigger] tokens_from(s, i)[k] == (seq![
                    seq![s[i]] + rest[0],
                ] + rest.skip(1))[k]);
        }
    }
}

/// Splits `s` on whitespace runs into its tokens.
pub fn split_tokens(s: &str) -> (r: Vec<String>)
    ensures
        r.deep_view() == tokens(s@),
{
    let n = s.unicode_len();
    let mut toks: Vec<String> = Vec::new();
    let mut i: usize = 0;
    proof {
        assert(toks.deep_view() + tokens_from(s@, 0) =~= tokens(s@));
    }
    while i < n
        invariant
            n == s@.len(),
            i <= n,
            toks.deep_view() + tokens_from(s@, i as int) == tokens(s@),
        decreases n - i,
    {
        let c = s.get_char(i);
        if is_space_char(c) {
            i = i + 1;
        } else {
            let start = i;
            i = i + 1;
            while i < n && !is_space_char(s.get_char(i))
                invariant
                    n == s@.len(),
                    start < i <= n,
                    forall|k: int| start <= k < i ==> !is_space(s@[k]),
                decreases n - i,
            {
                i = i + 1;
            }
            let tok = s.substring_char(start, i);
            let ghost old_deep = toks.deep_view();
            toks.push(tok.to_owned());
            proof {
                lemma_token_block(s@, start as int, i as int);
                assert(toks.deep_view() =~= old_deep.push(s@.subrange(start as int, i as int)));
                assert(toks.deep_view() + tokens_from(s@, i as int) =~= tokens(s@));
            }
        }
    }
    proof {
        assert(toks.deep_view() =~= tokens(s@));
    }
    toks
}

} // verus!
