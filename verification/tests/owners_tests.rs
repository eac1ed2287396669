use cown::locate::{find_codeowner_file_for, locate_codeowners_in_dir};
use cown::owners::{OwnersFile, Rule};
use cown::paths::{base_of, join, parent_of, str_eq};
use cown::pattern::normalize_pattern;

fn lines(raw: &[&str]) -> Vec<String> {
    raw.iter().map(|s| s.to_string()).collect()
}

fn load(raw: &[&str]) -> OwnersFile {
    let (file, diags) = OwnersFile::try_parse("repo/CODEOWNERS".to_string(), &lines(raw));
    assert!(diags.is_empty(), "unexpected diagnostics");
    file
}

fn owners_of(file: &OwnersFile, path: &str) -> Option<Vec<String>> {
    file.owner_for(path).map(|v| v.clone())
}

#[test]
fn precedence_later_rule_wins() {
    let file = load(&["*.go @alpha", "*.go @beta"]);
    assert_eq!(owners_of(&file, "main.go"), Some(vec!["@beta".to_string()]));
}

#[test]
fn precedence_is_reversed_file_order() {
    let file = load(&["a.txt @first", "b.txt @mid", "a.txt @last"]);
    assert_eq!(file.rules.len(), 3);
    assert_eq!(file.rules[0].line_number, 3);
    assert_eq!(file.rules[1].line_number, 2);
    assert_eq!(file.rules[2].line_number, 1);
    assert_eq!(owners_of(&file, "a.txt"), Some(vec!["@last".to_string()]));
    assert_eq!(owners_of(&file, "b.txt"), Some(vec!["@mid".to_string()]));
}

#[test]
fn unanchored_by_default() {
    let file = load(&["foo.txt @owner"]);
    assert_eq!(
        owners_of(&file, "a/b/foo.txt"),
        Some(vec!["@owner".to_string()])
    );

    let anchored = load(&["/foo.txt @owner"]);
    assert_eq!(owners_of(&anchored, "a/foo.txt"), None);
    assert_eq!(
        owners_of(&anchored, "foo.txt"),
        Some(vec!["@owner".to_string()])
    );
}

#[test]
fn directory_anchor_expansion() {
    let file = load(&["docs/ @docs-team"]);
    assert_eq!(
        owners_of(&file, "docs/readme.md"),
        Some(vec!["@docs-team".to_string()])
    );
    assert_eq!(
        owners_of(&file, "docs/sub/readme.md"),
        Some(vec!["@docs-team".to_string()])
    );
}

#[test]
fn comment_and_blank_skipping() {
    let file = load(&["", "   ", "# a comment", "  # indented comment", "\t"]);
    assert_eq!(file.rules.len(), 0);
    assert_eq!(owners_of(&file, "anything"), None);
    assert_eq!(owners_of(&file, "a/b/c.txt"), None);
}

#[test]
fn empty_owner_rule_unowns() {
    let file = load(&["*.secret @keeper", "*.secret"]);
    let hit = file.owner_for("deploy.secret");
    assert_eq!(hit, Some(&Vec::new()));
    assert!(hit.is_some());
    assert_eq!(owners_of(&file, "README.md"), None);
}

#[test]
fn malformed_pattern_resilience() {
    let raw = lines(&["*.go @go-team", "[ @broken", "*.md @md-team"]);
    let (file, diags) = OwnersFile::try_parse("repo/CODEOWNERS".to_string(), &raw);
    assert_eq!(file.rules.len(), 2);
    assert_eq!(diags.len(), 1);
    assert_eq!(diags[0].line_number, 2);
    assert_eq!(diags[0].pattern, "**/[");
    assert!(!diags[0].message.is_empty());
    assert_eq!(owners_of(&file, "x.go"), Some(vec!["@go-team".to_string()]));
    assert_eq!(owners_of(&file, "x.md"), Some(vec!["@md-team".to_string()]));
}

#[test]
fn end_to_end_example() {
    let raw = lines(&["*.go        @go-team", "/docs/      @docs-team", "secrets.env"]);
    let (file, diags) = OwnersFile::try_parse("repo/CODEOWNERS".to_string(), &raw);
    assert!(diags.is_empty());
    assert_eq!(file.rules.len(), 3);
    assert_eq!(file.rules[0].owners, Vec::<String>::new());
    assert_eq!(file.rules[1].owners, vec!["@docs-team".to_string()]);
    assert_eq!(file.rules[2].owners, vec!["@go-team".to_string()]);

    assert_eq!(owners_of(&file, "main.go"), Some(vec!["@go-team".to_string()]));
    assert_eq!(
        owners_of(&file, "docs/readme.md"),
        Some(vec!["@docs-team".to_string()])
    );
    assert_eq!(owners_of(&file, "secrets.env"), Some(Vec::new()));
    assert_eq!(owners_of(&file, "README.md"), None);
}

#[test]
fn rule_try_parse_splits_tokens() {
    let rule = Rule::try_parse("  src/*.rs   @alice  @bob ", 7)
        .unwrap()
        .unwrap();
    assert_eq!(rule.line_number, 7);
    assert_eq!(
        rule.owners,
        vec!["@alice".to_string(), "@bob".to_string()]
    );
    assert!(rule.matches_file("src/lib.rs"));
    assert!(!rule.matches_file("src/lib.txt"));
}

#[test]
fn owners_preserved_verbatim() {
    let rule = Rule::try_parse("conf/\t@dup @dup  user@example.com", 2)
        .unwrap()
        .unwrap();
    assert_eq!(
        rule.owners,
        vec![
            "@dup".to_string(),
            "@dup".to_string(),
            "user@example.com".to_string()
        ]
    );
}

#[test]
fn rule_try_parse_skips_and_fails() {
    assert!(Rule::try_parse("", 1).unwrap().is_none());
    assert!(Rule::try_parse("   \t ", 2).unwrap().is_none());
    assert!(Rule::try_parse("# comment", 3).unwrap().is_none());
    let diag = Rule::try_parse("[x @who", 4).unwrap_err();
    assert_eq!(diag.line_number, 4);
    assert_eq!(diag.pattern, "**/[x");
    assert!(!diag.message.is_empty());
}

#[test]
fn question_mark_matches_one_character() {
    let rule = Rule::try_parse("? @one", 1).unwrap().unwrap();
    assert!(rule.matches_file("a"));
    assert!(!rule.matches_file("ab"));
}

#[test]
fn normalize_pattern_formulas() {
    assert_eq!(normalize_pattern("foo.txt"), "**/foo.txt");
    assert_eq!(normalize_pattern("*.go"), "*.go");
    assert_eq!(normalize_pattern("*"), "*");
    assert_eq!(normalize_pattern("/foo.txt"), "foo.txt");
    assert_eq!(normalize_pattern("/docs/"), "docs/**");
    assert_eq!(normalize_pattern("docs/"), "**/docs/**");
}

#[test]
fn root_hoists_standard_folders() {
    let github = OwnersFile::new("repo/.github/CODEOWNERS".to_string(), Vec::new());
    assert_eq!(github.root(), "repo");
    let docs = OwnersFile::new("repo/docs/CODEOWNERS".to_string(), Vec::new());
    assert_eq!(docs.root(), "repo");
    let top = OwnersFile::new("repo/CODEOWNERS".to_string(), Vec::new());
    assert_eq!(top.root(), "repo");
    let bare = OwnersFile::new("CODEOWNERS".to_string(), Vec::new());
    assert_eq!(bare.root(), "");
    let nested = OwnersFile::new("a/b/.github/CODEOWNERS".to_string(), Vec::new());
    assert_eq!(nested.root(), "a/b");
}

#[test]
fn locate_precedence() {
    assert_eq!(
        locate_codeowners_in_dir("repo", true, true, true),
        Some("repo/.github/CODEOWNERS".to_string())
    );
    assert_eq!(
        locate_codeowners_in_dir("repo", false, true, true),
        Some("repo/docs/CODEOWNERS".to_string())
    );
    assert_eq!(
        locate_codeowners_in_dir("repo", false, false, true),
        Some("repo/CODEOWNERS".to_string())
    );
    assert_eq!(locate_codeowners_in_dir("repo", false, false, false), None);
    assert_eq!(
        find_codeowner_file_for("repo", false, true, false),
        Some("repo/docs/CODEOWNERS".to_string())
    );
    assert_eq!(
        locate_codeowners_in_dir("repo/", true, false, false),
        Some("repo/.github/CODEOWNERS".to_string())
    );
}

#[test]
fn path_helpers() {
    assert_eq!(parent_of("a/b/c"), "a/b");
    assert_eq!(parent_of("c"), "");
    assert_eq!(base_of("a/b/c"), "c");
    assert_eq!(base_of("c"), "c");
    assert_eq!(join("", "f"), "f");
    assert_eq!(join("d", "f"), "d/f");
    assert_eq!(join("d/", "f"), "d/f");
    assert!(str_eq("same", "same"));
    assert!(!str_eq("same", "other"));
    assert!(!str_eq("same", "sam"));
}
