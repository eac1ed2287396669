//! Compiled ownership rules and the rule-set resolver.
//!
//! One directive line compiles to a [`Rule`]: a glob matcher over relative
//! paths plus the owner identifiers named on the line. An [`OwnersFile`]
//! holds the rules of one ownership file in precedence order — index 0 is the
//! highest precedence, which is the last rule declared in the file — so a
//! lookup is a first-match linear scan.

use vstd::prelude::*;

use crate::pattern::{glob_accepts, glob_compiles, glob_match, glob_new, normalize,
    normalize_pattern, pattern_src};
use crate::paths::{base_name, base_of, parent_dir, parent_of, str_eq};
use crate::text::{lemma_tokens_nonempty, split_tokens, tokens};

verus! {

/// Mathematical model of one compiled rule.
pub ghost struct RuleModel {
    /// Normalized pattern text the matcher was compiled from.
    pub pattern: Seq<char>,
    /// Owner identifiers, in the order they appear on the line.
    pub owners: Seq<Seq<char>>,
    /// 1-based line number of the originating line.
    pub line: int,
}

/// Mathematical model of one diagnostic.
pub ghost struct DiagModel {
    /// Normalized pattern text that failed to compile.
    pub pattern: Seq<char>,
    /// 1-based line number of the offending line.
    pub line: int,
}

/// One compiled ownership directive: a path matcher, the owners it names,
/// and the line it came from.
#[derive(Debug)]
pub struct Rule {
    /// Compiled glob matcher for the normalized pattern.
    pub pattern: glob::Pattern,
    /// Owner identifiers, in file order; may be empty ("owned by nobody").
    pub owners: Vec<String>,
    /// 1-based line number in the originating file.
    pub line_number: usize,
}

impl View for Rule {
    type V = RuleModel;

    open spec fn view(&self) -> RuleModel {
        RuleModel {
            pattern: pattern_src(self.pattern),
            owners: self.owners.deep_view(),
            line: self.line_number as int,
        }
    }
}

impl DeepView for Rule {
    type V = RuleModel;

    open spec fn deep_view(&self) -> RuleModel {
        self.view()
    }
}

/// A diagnostic for one line whose pattern could not be compiled.
#[derive(Debug)]
pub struct Diagnostic {
    /// 1-based line number of the offending line.
    pub line_number: usize,
    /// The normalized pattern that was rejected.
    pub pattern: String,
    /// The matcher's description of the parse failure.
    pub message: String,
}

impl View for Diagnostic {
    type V = DiagModel;

    open spec fn view(&self) -> DiagModel {
        DiagModel { pattern: self.pattern@, line: self.line_number as int }
    }
}

impl DeepView for Diagnostic {
    type V = DiagModel;

    open spec fn deep_view(&self) -> DiagModel {
        self.view()
    }
}

/// Whether a raw line produces no rule: blank, or a `#` comment.
pub open spec fn line_skipped(line: Seq<char>) -> bool {
    tokens(line).len() == 0 || tokens(line)[0][0] == '#'
}

/// The normalized pattern of a non-skipped line: its first token.
pub open spec fn line_pattern(line: Seq<char>) -> Seq<char> {
    normalize(tokens(line)[0])
}

/// The owners of a non-skipped line: every token after the first.
pub open spec fn line_owners(line: Seq<char>) -> Seq<Seq<char>> {
    tokens(line).skip(1)
}

impl Rule {
    /// Compiles one raw line. A blank or comment line yields `Ok(None)`;
    /// a line whose normalized pattern is not a valid glob yields the
    /// diagnostic; any other line yields the rule it declares.
    pub fn try_parse(line: &str, line_number: usize) -> (r: Result<Option<Rule>, Diagnostic>)
        ensures
            line_skipped(line@) ==> (r matches Ok(o) && o is None),
            !line_skipped(line@) && glob_compiles(line_pattern(line@)) ==> (r matches Ok(o)
                && o matches Some(rule) && rule@ == (RuleModel {
                pattern: line_pattern(line@),
                owners: line_owners(line@),
                line: line_number as int,
            })),
            !line_skipped(line@) && !glob_compiles(line_pattern(line@)) ==> (r matches Err(d)
                && d@ == (DiagModel { pattern: line_pattern(line@), line: line_number as int })),
    {
        let toks = split_tokens(line);
        if toks.len() == 0 {
            return Ok(None);
        }
        proof {
            lemma_tokens_nonempty(line@, 0);
            assert(toks.deep_view()[0] == toks@[0]@);
        }
        let first = &toks[0];
        if first.as_str().get_char(0) == '#' {
            return Ok(None);
        }
        let norm = normalize_pattern(first.as_str());
        match glob_new(norm.as_str()) {
            Ok(pat) => {
                let mut owners: Vec<String> = Vec::new();
                let mut k: usize = 1;
                proof {
                    assert(owners.deep_view() =~= tokens(line@).subrange(1, 1));
                }
                while k < toks.len()
                    invariant
                        1 <= k <= toks.len(),
                        toks.deep_view() == tokens(line@),
                        owners.deep_view() == tokens(line@).subrange(1, k as int),
                    decreases toks.len() - k,
                {
                    let ghost pre = owners.deep_view();
                    let s = toks[k].clone();
                    let ghost sv = s@;
                    proof {
                        assert(toks.deep_view()[k as int] == toks@[k as int]@);
                        assert(sv == tokens(line@)[k as int]);
                    }
                    owners.push(s);
                    proof {
                        assert(owners.deep_view() =~= pre.push(sv));
                        assert(pre.push(sv) =~= tokens(line@).subrange(1, k as int + 1));
                    }
                    k = k + 1;
                }
                proof {
                    assert(owners.deep_view() =~= line_owners(line@));
                }
                Ok(Some(Rule { pattern: pat, owners, line_number }))
            },
            Err(message) => Err(Diagnostic { line_number, pattern: norm, message }),
        }
    }

    /// Whether this rule's pattern accepts `path`.
    pub fn matches_file(&self, path: &str) -> (r: bool)
        ensures
            r == glob_accepts(self@.pattern, path@),
    {
        glob_match(&self.pattern, path)
    }
}

/// The rules declared by `lines`, in file order, the first line numbered
/// `first_line`. Skipped and malformed lines contribute nothing.
pub open spec fn file_rules(lines: Seq<Seq<char>>, first_line: int) -> Seq<RuleModel>
    decreases lines.len(),
{
    if lines.len() == 0 {
        Seq::empty()
    } else {
        let rest = file_rules(lines.skip(1), first_line + 1);
        if line_skipped(lines[0]) {
            rest
        } else if glob_compiles(line_pattern(lines[0])) {
            seq![
                RuleModel {
                    pattern: line_pattern(lines[0]),
                    owners: line_owners(lines[0]),
                    line: first_line,
                },
            ] + rest
        } else {
            rest
        }
    }
}

/// The diagnostics for the malformed lines of `lines`, in file order.
pub open spec fn file_diags(lines: Seq<Seq<char>>, first_line: int) -> Seq<DiagModel>
    decreases lines.len(),
{
    if lines.len() == 0 {
        Seq::empty()
    } else {
        let rest = file_diags(lines.skip(1), first_line + 1);
        if !line_skipped(lines[0]) && !glob_compiles(line_pattern(lines[0])) {
            seq![DiagModel { pattern: line_pattern(lines[0]), line: first_line }] + rest
        } else {
            rest
        }
    }
}

/// Compiles the raw lines of one ownership file, in file order. Returns the
/// rules of the valid lines and a diagnostic for every malformed one:
/// a bad pattern never aborts the compilation of the other lines.
pub fn compile_rules(lines: &Vec<String>) -> (r: (Vec<Rule>, Vec<Diagnostic>))
    ensures
        r.0.deep_view() == file_rules(lines.deep_view(), 1),
        r.1.deep_view() == file_diags(lines.deep_view(), 1),
{
    let ghost all = lines.deep_view();
    let mut rules: Vec<Rule> = Vec::new();
    let mut diags: Vec<Diagnostic> = Vec::new();
    let mut j: usize = 0;
    proof {
        assert(all.skip(0) =~= all);
        assert(rules.deep_view() + file_rules(all.skip(0), 1) =~= file_rules(all, 1));
        assert(diags.deep_view() + file_diags(all.skip(0), 1) =~= file_diags(all, 1));
    }
    while j < lines.len()
        invariant
            j <= lines.len(),
            all == lines.deep_view(),
            rules.deep_view() + file_rules(all.skip(j as int), j as int + 1) == file_rules(all, 1),
            diags.deep_view() + file_diags(all.skip(j as int), j as int + 1) == file_diags(all, 1),
        decreases lines.len() - j,
    {
        let line = &lines[j];
        proof {
            assert(all.skip(j as int)[0] == all[j as int]);
            assert(all[j as int] == line@);
            assert(all.skip(j as int).skip(1) =~= all.skip(j as int + 1));
        }
        let ghost pre_rules = rules.deep_view();
        let ghost pre_diags = diags.deep_view();
        match Rule::try_parse(line.as_str(), j + 1) {
            Ok(Some(rule)) => {
                let ghost rv = rule@;
                rules.push(rule);
                proof {
                    assert(rules.deep_view() =~= pre_rules.push(rv));
                    assert(pre_rules.push(rv) + file_rules(all.skip(j as int + 1), j as int + 2)
                        =~= pre_rules + file_rules(all.skip(j as int), j as int + 1));
                }
            },
            Ok(None) => {},
            Err(d) => {
                let ghost dv = d@;
                diags.push(d);
                proof {
                    assert(diags.deep_view() =~= pre_diags.push(dv));
                    assert(pre_diags.push(dv) + file_diags(all.skip(j as int + 1), j as int + 2)
                        =~= pre_diags + file_diags(all.skip(j as int), j as int + 1));
                }
            },
        }
        j = j + 1;
    }
    proof {
        assert(rules.deep_view() =~= file_rules(all, 1));
        assert(diags.deep_view() =~= file_diags(all, 1));
    }
    (rules, diags)
}

/// Mathematical model of one ownership file: its path on disk and its rules
/// in precedence order.
pub ghost struct OwnersModel {
    /// The path the file was read from.
    pub path: Seq<char>,
    /// Rules in precedence order: index 0 is the last rule declared.
    pub rules: Seq<RuleModel>,
}

/// The compiled rules of one ownership file, held in precedence order.
pub struct OwnersFile {
    /// The path on disk this file was read from (diagnostics only).
    pub path: String,
    /// The rules, highest precedence (last declared) first.
    pub rules: Vec<Rule>,
}

impl View for OwnersFile {
    type V = OwnersModel;

    open spec fn view(&self) -> OwnersModel {
        OwnersModel { path: self.path@, rules: self.rules.deep_view() }
    }
}

/// The owners of the first rule in `rules` that accepts `path`; `None` when
/// no rule does.
pub open spec fn owners_for(rules: Seq<RuleModel>, path: Seq<char>) -> Option<Seq<Seq<char>>>
    decreases rules.len(),
{
    if rules.len() == 0 {
        None
    } else if glob_accepts(rules[0].pattern, path) {
        Some(rules[0].owners)
    } else {
        owners_for(rules.skip(1), path)
    }
}

/// The effective root of an ownership file at `p`: the file's directory, or
/// that directory's own parent when its name is `.github` or `docs`.
pub open spec fn root_spec(p: Seq<char>) -> Seq<char> {
    let dir = parent_dir(p);
    if base_name(dir) == ".github"@ || base_name(dir) == "docs"@ {
        parent_dir(dir)
    } else {
        dir
    }
}

/// The index of the last rule in file order that accepts `path`, or `-1`
/// when none does.
pub open spec fn last_match(rules: Seq<RuleModel>, path: Seq<char>) -> int
    decreases rules.len(),
{
    if rules.len() == 0 {
        -1
    } else if glob_accepts(rules.last().pattern, path) {
        rules.len() - 1
    } else {
        last_match(rules.drop_last(), path)
    }
}

/// Last-declared-wins: over rules in file order, a lookup on the reversed
/// (precedence-order) list returns exactly the owners of the last matching
/// rule, and finds nothing if and only if no rule matches.
pub proof fn lemma_last_declared_wins(rules: Seq<RuleModel>, path: Seq<char>)
    ensures
        -1 <= last_match(rules, path) < rules.len(),
        last_match(rules, path) < 0 ==> owners_for(rules.reverse(), path) is None,
        last_match(rules, path) >= 0 ==> 0 <= last_match(rules, path) < rules.len()
            && glob_accepts(rules[last_match(rules, path)].pattern, path)
            && owners_for(rules.reverse(), path) == Some(rules[last_match(rules, path)].owners),
        forall|k: int|
            last_match(rules, path) < k < rules.len() ==> !glob_accepts(
                #[trigger] rules[k].pattern,
                path,
            ),
    decreases rules.len(),
{
    if rules.len() == 0 {
        assert(rules.reverse() =~= Seq::<RuleModel>::empty());
    } else {
        let n = rules.len() as int;
        assert(rules.reverse().len() == n);
        assert(rules.reverse()[0] == rules[n - 1]);
        if glob_accepts(rules[n - 1].pattern, path) {
            assert(owners_for(rules.reverse(), path) == Some(rules[n - 1].owners));
        } else {
            lemma_last_declared_wins(rules.drop_last(), path);
            assert(rules.reverse().skip(1) =~= rules.drop_last().reverse());
            assert(owners_for(rules.reverse(), path) == owners_for(
                rules.drop_last().reverse(),
                path,
            ));
            let m = last_match(rules, path);
            assert(m == last_match(rules.drop_last(), path));
            if m >= 0 {
                assert(rules.drop_last()[m] == rules[m]);
            }
            assert(forall|k: int|
                m < k < n - 1 ==> rules.drop_last()[k] == #[trigger] rules[k]);
        }
    }
}

/// Precedence law: when two rules both accept a path, the lookup result over
/// the reversed rule list comes from the later declaration or one later
/// still, never the earlier one.
pub proof fn lemma_later_rule_wins(rules: Seq<RuleModel>, path: Seq<char>, i: int, j: int)
    requires
        0 <= i < j < rules.len(),
        glob_accepts(rules[i].pattern, path),
        glob_accepts(rules[j].pattern, path),
    ensures
        j <= last_match(rules, path) < rules.len(),
        owners_for(rules.reverse(), path) == Some(rules[last_match(rules, path)].owners),
{
    lemma_last_declared_wins(rules, path);
}

/// A file of blank and comment lines yields no rules, and a lookup over an
/// empty rule list finds nothing.
pub proof fn lemma_comments_only(lines: Seq<Seq<char>>, first_line: int, path: Seq<char>)
    requires
        forall|k: int| 0 <= k < lines.len() ==> line_skipped(#[trigger] lines[k]),
    ensures
        file_rules(lines, first_line) == Seq::<RuleModel>::empty(),
        owners_for(file_rules(lines, first_line).reverse(), path) is None,
    decreases lines.len(),
{
    if lines.len() == 0 {
    } else {
        assert(forall|k: int|
            0 <= k < lines.skip(1).len() ==> line_skipped(#[trigger] lines.skip(1)[k]));
        lemma_comments_only(lines.skip(1), first_line + 1, path);
    }
    assert(Seq::<RuleModel>::empty().reverse() =~= Seq::<RuleModel>::empty());
}

/// Malformed-pattern resilience: one line whose normalized pattern is not a
/// valid glob contributes its diagnostic and no rule, and the surrounding
/// lines compile exactly as they would without it.
pub proof fn lemma_malformed_line_dropped(
    before: Seq<Seq<char>>,
    bad: Seq<char>,
    after: Seq<Seq<char>>,
    first_line: int,
)
    requires
        !line_skipped(bad),
        !glob_compiles(line_pattern(bad)),
    ensures
        file_rules(before + seq![bad] + after, first_line) == file_rules(before, first_line)
            + file_rules(after, first_line + before.len() + 1),
        file_diags(before + seq![bad] + after, first_line) == file_diags(before, first_line)
            + seq![DiagModel { pattern: line_pattern(bad), line: first_line + before.len() }]
            + file_diags(after, first_line + before.len() + 1),
    decreases before.len(),
{
    let lines = before + seq![bad] + after;
    if before.len() == 0 {
        assert(lines[0] == bad);
        assert(lines.skip(1) =~= after);
        assert(file_rules(lines, first_line) == file_rules(after, first_line + 1));
        assert(file_rules(before, first_line) + file_rules(after, first_line + 1) =~= file_rules(
            after,
            first_line + 1,
        ));
        assert(file_diags(lines, first_line) == seq![
            DiagModel { pattern: line_pattern(bad), line: first_line },
        ] + file_diags(after, first_line + 1));
        assert(file_diags(before, first_line) + seq![
            DiagModel { pattern: line_pattern(bad), line: first_line },
        ] + file_diags(after, first_line + 1) =~= seq![
            DiagModel { pattern: line_pattern(bad), line: first_line },
        ] + file_diags(after, first_line + 1));
    } else {
        lemma_malformed_line_dropped(before.skip(1), bad, after, first_line + 1);
        assert(lines[0] == before[0]);
        assert(lines.skip(1) =~= before.skip(1) + seq![bad] + after);
        let tail_rules = file_rules(before.skip(1) + seq![bad] + after, first_line + 1);
        let tail_diags = file_diags(before.skip(1) + seq![bad] + after, first_line + 1);
        assert(file_rules(lines.skip(1), first_line + 1) == tail_rules);
        assert(file_diags(lines.skip(1), first_line + 1) == tail_diags);
        let rules_rest = file_rules(after, first_line + before.len() + 1);
        let diags_rest = file_diags(after, first_line + before.len() + 1);
        assert(first_line + 1 + before.skip(1).len() + 1 == first_line + before.len() + 1);
        assert(first_line + 1 + before.skip(1).len() == first_line + before.len());
        if line_skipped(before[0]) {
            assert(file_rules(before, first_line) == file_rules(before.skip(1), first_line + 1));
            assert(file_diags(before, first_line) == file_diags(before.skip(1), first_line + 1));
        } else if glob_compiles(line_pattern(before[0])) {
            let m = RuleModel {
                pattern: line_pattern(before[0]),
                owners: line_owners(before[0]),
                line: first_line,
            };
            assert(file_rules(lines, first_line) == seq![m] + tail_rules);
            assert(file_rules(before, first_line) == seq![m] + file_rules(
                before.skip(1),
                first_line + 1,
            ));
            assert(seq![m] + (file_rules(before.skip(1), first_line + 1) + rules_rest) =~= (seq![m]
                + file_rules(before.skip(1), first_line + 1)) + rules_rest);
            assert(file_diags(before, first_line) == file_diags(before.skip(1), first_line + 1));
        } else {
            let d = DiagModel { pattern: line_pattern(before[0]), line: first_line };
            assert(file_diags(lines, first_line) == seq![d] + tail_diags);
            assert(file_diags(before, first_line) == seq![d] + file_diags(
                before.skip(1),
                first_line + 1,
            ));
            let bd = DiagModel { pattern: line_pattern(bad), line: first_line + before.len() };
            assert(seq![d] + (file_diags(before.skip(1), first_line + 1) + seq![bd] + diags_rest)
                =~= (seq![d] + file_diags(before.skip(1), first_line + 1)) + seq![bd] + diags_rest);
            assert(file_rules(before, first_line) == file_rules(before.skip(1), first_line + 1));
        }
    }
}

impl OwnersFile {
    /// Wraps rules already in precedence order, together with their path.
    pub fn new(path: String, rules: Vec<Rule>) -> (r: OwnersFile)
        ensures
            r@ == (OwnersModel { path: path@, rules: rules.deep_view() }),
    {
        OwnersFile { path, rules }
    }

    /// Compiles the raw lines of one ownership file and loads the resulting
    /// rules in precedence order: the rule list is the file-order list
    /// reversed, so that the last declared rule is scanned first.
    pub fn try_parse(path: String, lines: &Vec<String>) -> (r: (OwnersFile, Vec<Diagnostic>))
        ensures
            r.0@.path == path@,
            r.0@.rules == file_rules(lines.deep_view(), 1).reverse(),
            r.1.deep_view() == file_diags(lines.deep_view(), 1),
    {
        let (mut rules, diags) = compile_rules(lines);
        let ghost ordered = rules.deep_view();
        let mut rev: Vec<Rule> = Vec::new();
        proof {
            assert(rules.deep_view() =~= ordered.take(rules@.len() as int));
            assert(rev.deep_view() =~= ordered.skip(rules@.len() as int).reverse());
        }
        while rules.len() > 0
            invariant
                rules@.len() <= ordered.len(),
                rules.deep_view() == ordered.take(rules@.len() as int),
                rev.deep_view() == ordered.skip(rules@.len() as int).reverse(),
            decreases rules.len(),
        {
            let ghost k = rules@.len() as int;
            let ghost pre_rev = rev.deep_view();
            let ghost pre_vec = rules@;
            let ghost pre_deep = rules.deep_view();
            let r = rules.pop().unwrap();
            proof {
                assert(r == pre_vec[k - 1]);
                assert(r@ == pre_deep[k - 1]);
                assert(r@ == ordered[k - 1]);
                assert(rules.deep_view() =~= ordered.take(k - 1));
            }
            rev.push(r);
            proof {
                assert(rev.deep_view() =~= pre_rev.push(ordered[k - 1]));
                assert(pre_rev.push(ordered[k - 1]) =~= ordered.skip(k - 1).reverse());
            }
        }
        proof {
            assert(rev.deep_view() =~= ordered.reverse());
        }
        (OwnersFile::new(path, rev), diags)
    }

    /// The effective root of this ownership file, per [`root_spec`]: its
    /// directory, hoisted one level when that directory is itself named
    /// `.github` or `docs` (a file in those standard folders governs the
    /// directory above them). Paths handed to [`OwnersFile::owner_for`] are
    /// relative to this root.
    pub fn root(&self) -> (r: String)
        ensures
            r@ == root_spec(self@.path),
    {
        let dir = parent_of(self.path.as_str());
        let base = base_of(dir.as_str());
        if str_eq(base.as_str(), ".github") || str_eq(base.as_str(), "docs") {
            parent_of(dir.as_str())
        } else {
            dir
        }
    }

    /// Scans the rules in precedence order and returns the owner list of the
    /// first rule that accepts `path`, or `None` when no rule does. `path`
    /// must already be relative to the ownership file's effective root.
    /// An empty owner list ("owned by nobody") is distinct from `None`.
    pub fn owner_for(&self, path: &str) -> (r: Option<&Vec<String>>)
        ensures
            match r {
                Some(os) => owners_for(self@.rules, path@) == Some(os.deep_view()),
                None => owners_for(self@.rules, path@) is None,
            },
    {
        let ghost all = self@.rules;
        let mut i: usize = 0;
        proof {
            assert(all.skip(0) =~= all);
        }
        while i < self.rules.len()
            invariant
                i <= self.rules.len(),
                all == self@.rules,
                owners_for(all.skip(i as int), path@) == owners_for(all, path@),
            decreases self.rules.len() - i,
        {
            let rule = &self.rules[i];
            proof {
                assert(all.skip(i as int)[0] == all[i as int]);
                assert(all[i as int] == rule@);
            }
            if glob_match(&rule.pattern, path) {
                return Some(&rule.owners);
            }
            proof {
                assert(all.skip(i as int).skip(1) =~= all.skip(i as int + 1));
            }
            i = i + 1;
        }
        None
    }
}

} // verus!
