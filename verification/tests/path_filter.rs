use treeboot_core::path_filter::{
    invalid_include_pattern, IncludePatternIssue, PathIgnoreRules, PathIncludeRules,
};

fn patterns(p: &[&str]) -> Vec<String> {
    p.iter().map(|s| (*s).to_owned()).collect()
}

fn rules(p: &[&str]) -> PathIgnoreRules {
    PathIgnoreRules::new("shared", &patterns(p)).expect("patterns should build")
}

fn include_rules(p: &[&str]) -> PathIncludeRules {
    PathIncludeRules::new("shared", &patterns(p)).expect("patterns should build")
}

#[test]
fn path_filter_path_ignore_rules_should_match_nested_vendor_descendants() {
    let rules = rules(&["**/vendor/**"]);

    assert!(rules.is_ignored("packages/vendor/file", false));
    assert!(!rules.is_ignored("packages/src/file", false));
}

#[test]
fn path_filter_path_ignore_rules_should_allow_later_negation() {
    let rules = rules(&["**/vendor/**", "!**/vendor/keep/**"]);

    assert!(rules.has_negation());
    assert!(rules.is_ignored("vendor/drop/file", false));
    assert!(!rules.is_ignored("vendor/keep/file", false));
}

#[test]
fn path_filter_path_ignore_rules_should_allow_later_ignore_after_negation() {
    let rules = rules(&["**/vendor/**", "!**/vendor/keep/**", "**/vendor/keep/tmp/**"]);

    assert!(!rules.is_ignored("vendor/keep/file", false));
    assert!(rules.is_ignored("vendor/keep/tmp/file", false));
}

#[test]
fn path_filter_path_ignore_rules_should_respect_directory_only_patterns() {
    let rules = rules(&["cache/"]);

    assert!(rules.is_ignored("cache", true));
    assert!(!rules.is_ignored("cache", false));
}

#[test]
fn path_filter_path_ignore_rules_should_accept_comments_and_blank_patterns() {
    let rules = rules(&["# comment", "", "tmp"]);

    assert!(!rules.is_ignored("comment", false));
    assert!(rules.is_ignored("tmp", false));
}

#[test]
fn path_filter_path_ignore_rules_should_match_escaped_comment_and_negation_prefixes() {
    let rules = rules(&[r"\#literal", r"\!literal"]);

    assert!(rules.is_ignored("#literal", false));
    assert!(rules.is_ignored("!literal", false));
    assert!(!rules.has_negation());
}

#[test]
fn path_filter_path_ignore_rules_should_reject_invalid_globs() {
    let error = PathIgnoreRules::new("shared", &patterns(&["{a,b"]))
        .err()
        .expect("invalid glob should fail");

    assert!(error.contains("{a,b"));
}

#[test]
fn ignore_rules_path_ignore_rules_should_match_nested_vendor_descendants() {
    let rules = rules(&["**/vendor/**"]);

    assert!(rules.is_ignored("packages/vendor/file", false));
    assert!(!rules.is_ignored("packages/src/file", false));
}

#[test]
fn ignore_rules_path_ignore_rules_should_allow_later_negation() {
    let rules = rules(&["**/vendor/**", "!**/vendor/keep/**"]);

    assert!(rules.has_negation());
    assert!(rules.is_ignored("vendor/drop/file", false));
    assert!(!rules.is_ignored("vendor/keep/file", false));
}

#[test]
fn ignore_rules_path_ignore_rules_should_allow_later_ignore_after_negation() {
    let rules = rules(&["**/vendor/**", "!**/vendor/keep/**", "**/vendor/keep/tmp/**"]);

    assert!(!rules.is_ignored("vendor/keep/file", false));
    assert!(rules.is_ignored("vendor/keep/tmp/file", false));
}

#[test]
fn ignore_rules_path_ignore_rules_should_respect_directory_only_patterns() {
    let rules = rules(&["cache/"]);

    assert!(rules.is_ignored("cache", true));
    assert!(!rules.is_ignored("cache", false));
}

#[test]
fn ignore_rules_path_ignore_rules_should_accept_comments_and_blank_patterns() {
    let rules = rules(&["# comment", "", "tmp"]);

    assert!(!rules.is_ignored("comment", false));
    assert!(rules.is_ignored("tmp", false));
}

#[test]
fn ignore_rules_path_ignore_rules_should_match_escaped_comment_and_negation_prefixes() {
    let rules = rules(&[r"\#literal", r"\!literal"]);

    assert!(rules.is_ignored("#literal", false));
    assert!(rules.is_ignored("!literal", false));
    assert!(!rules.has_negation());
}

#[test]
fn ignore_rules_path_ignore_rules_should_reject_invalid_globs() {
    let error = PathIgnoreRules::new("shared", &patterns(&["{a,b"]))
        .err()
        .expect("invalid glob should fail");

    assert!(error.contains("{a,b"));
}

#[test]
fn invalid_include_pattern_should_reject_inert_entries() {
    assert_eq!(invalid_include_pattern("!docs"), Some(IncludePatternIssue::Negation));
    assert_eq!(invalid_include_pattern(""), Some(IncludePatternIssue::Blank));
    assert_eq!(invalid_include_pattern("   "), Some(IncludePatternIssue::Blank));
    assert_eq!(invalid_include_pattern("# docs only"), Some(IncludePatternIssue::Comment));
}

#[test]
fn invalid_include_pattern_should_accept_effective_patterns() {
    assert_eq!(invalid_include_pattern("docs"), None);
    assert_eq!(invalid_include_pattern("**/*.rs"), None);
    assert_eq!(invalid_include_pattern(r"\!literal"), None);
    assert_eq!(invalid_include_pattern(r"\#literal"), None);
}

#[test]
fn include_pattern_issue_should_explain_each_problem() {
    assert_eq!(
        IncludePatternIssue::Negation.message("!docs"),
        "include pattern `!docs` uses `!` negation; use `ignore` to exclude paths"
    );
    assert_eq!(IncludePatternIssue::Blank.message(" "), "include patterns cannot be blank");
    assert_eq!(
        IncludePatternIssue::Comment.message("#x"),
        "include pattern `#x` is a gitignore comment; escape a literal leading `#` as `\\#`"
    );
}

#[test]
fn path_include_rules_should_match_as_plain_union() {
    let rules = include_rules(&["docs/**", "*.toml"]);

    assert!(rules.is_included("docs/guide.md", false));
    assert!(rules.is_included("nested/app.toml", false));
    assert!(!rules.is_included("src/main.rs", false));
}

#[test]
fn path_include_rules_should_respect_directory_only_patterns() {
    let rules = include_rules(&["docs/"]);

    assert!(rules.is_included("docs", true));
    assert!(!rules.is_included("docs", false));
}

#[test]
fn path_include_rules_should_match_escaped_prefixes() {
    let rules = include_rules(&[r"\!literal", r"\#literal"]);

    assert!(rules.is_included("!literal", false));
    assert!(rules.is_included("#literal", false));
}

#[test]
fn path_include_rules_should_reject_invalid_globs() {
    let error = PathIncludeRules::new("shared", &patterns(&["{a,b"]))
        .err()
        .expect("invalid glob should fail");

    assert!(error.contains("{a,b"));
}

#[test]
fn viability_should_walk_anchored_literal_prefixes() {
    let rules = include_rules(&["configs/app/*.toml"]);

    assert!(rules.dir_may_contain_matches("configs"));
    assert!(rules.dir_may_contain_matches("configs/app"));
    assert!(!rules.dir_may_contain_matches("vendor"));
    assert!(!rules.dir_may_contain_matches("configs/other"));
    assert!(rules.dir_may_contain_matches("configs/app/deep"));
    assert!(!rules.dir_may_contain_matches("configs/app/deep/er"));
}

#[test]
fn viability_should_over_approximate_after_double_star() {
    let rules = include_rules(&["a/**/b/*.toml"]);

    assert!(rules.dir_may_contain_matches("a"));
    assert!(rules.dir_may_contain_matches("a/x"));
    assert!(rules.dir_may_contain_matches("a/x/b"));
    assert!(!rules.dir_may_contain_matches("c"));
}

#[test]
fn viability_should_treat_slash_free_patterns_as_always_viable() {
    let rules = include_rules(&["*.rs"]);

    assert!(rules.dir_may_contain_matches("anything"));
    assert!(rules.dir_may_contain_matches("deep/nested/dir"));
}

#[test]
fn viability_should_treat_trailing_slash_only_patterns_as_unanchored() {
    let rules = include_rules(&["docs/"]);

    assert!(rules.dir_may_contain_matches("nested"));
}

#[test]
fn viability_should_treat_wildcard_segments_conservatively() {
    let rules = include_rules(&["a/*/c"]);

    assert!(rules.dir_may_contain_matches("a/anything"));
    assert!(!rules.dir_may_contain_matches("a/x/y"));
    assert!(!rules.dir_may_contain_matches("b"));
}

#[test]
fn viability_should_treat_brace_segments_conservatively() {
    let rules = include_rules(&["configs/{a,b}/app.toml"]);

    assert!(rules.dir_may_contain_matches("configs"));
    assert!(rules.dir_may_contain_matches("configs/a"));
    assert!(rules.dir_may_contain_matches("configs/other"));
    assert!(!rules.dir_may_contain_matches("vendor"));
}

#[test]
fn viability_should_stop_below_pattern_depth() {
    let rules = include_rules(&["a/b"]);

    assert!(rules.dir_may_contain_matches("a"));
    assert!(rules.dir_may_contain_matches("a/b"));
    assert!(!rules.dir_may_contain_matches("a/b/c"));
}

#[test]
fn viability_should_union_across_patterns() {
    let rules = include_rules(&["docs/**", "configs/app.toml"]);

    assert!(rules.dir_may_contain_matches("docs"));
    assert!(rules.dir_may_contain_matches("configs"));
    assert!(!rules.dir_may_contain_matches("vendor"));
}
