use treemerge::error::MergeError;
use treemerge::globs::{
    compile_globs, default_excludes, GlobFilter, MATCHER_CAPACITY, MATCHER_OVERHEAD,
};

fn list(items: &[&str]) -> Vec<String> {
    items.iter().map(|s| s.to_string()).collect()
}

#[test]
fn include_match_overrides_exclude_match() {
    let filter = GlobFilter::new(&list(&["*.rs"]), &list(&["*.rs"])).unwrap();
    assert!(filter.should_include("src/main.rs", false));
    assert!(filter.should_include("src/main.rs", true));
}

#[test]
fn include_match_overrides_builtin_exclude() {
    let filter = GlobFilter::new(&list(&["**/*.lock"]), &list(&[])).unwrap();
    assert!(filter.should_include("Cargo.lock", false));
}

#[test]
fn exclude_match_rejects_path() {
    let filter = GlobFilter::new(&list(&[]), &list(&["*.log", "tmp/**"])).unwrap();
    assert!(!filter.should_include("build.log", false));
    assert!(!filter.should_include("tmp/a/b.txt", false));
    assert!(!filter.should_include("build.log", true));
    assert!(filter.should_include("notes.txt", false));
}

#[test]
fn unmatched_path_is_included() {
    let filter = GlobFilter::new(&list(&[]), &list(&[])).unwrap();
    assert!(filter.should_include("src/lib.rs", false));
    assert!(filter.should_include("README.md", false));
}

#[test]
fn builtin_excludes_reject_git_config_unless_all_files() {
    let filter = GlobFilter::new(&list(&[]), &list(&[])).unwrap();
    assert!(!filter.should_include(".git/config", false));
    assert!(filter.should_include(".git/config", true));
}

#[test]
fn builtin_excludes_cover_lockfiles_and_binaries() {
    let filter = GlobFilter::new(&list(&[]), &list(&[])).unwrap();
    assert!(!filter.should_include("Cargo.lock", false));
    assert!(!filter.should_include("node_modules/x/index.js", false));
    assert!(!filter.should_include("tool.exe", false));
    assert!(!filter.should_include("LICENSE", false));
    assert!(filter.should_include("tool.exe", true));
}

#[test]
fn explicit_exclude_still_applies_with_all_files() {
    let filter = GlobFilter::new(&list(&[]), &list(&[".git/**"])).unwrap();
    assert!(!filter.should_include(".git/config", true));
}

#[test]
fn malformed_include_is_named() {
    let err = GlobFilter::new(&list(&["[abc"]), &list(&[])).unwrap_err();
    assert_eq!(err, MergeError::InvalidPattern("[abc".to_string()));
}

#[test]
fn first_malformed_pattern_is_named() {
    let err = GlobFilter::new(&list(&["*.rs", "[a", "{b"]), &list(&["[z"])).unwrap_err();
    assert_eq!(err, MergeError::InvalidPattern("[a".to_string()));
}

#[test]
fn malformed_exclude_is_named() {
    let err = GlobFilter::new(&list(&["*.rs"]), &list(&["ok/**", "{open"])).unwrap_err();
    assert_eq!(err, MergeError::InvalidPattern("{open".to_string()));
}

#[test]
fn compile_globs_builds_a_set_of_all_patterns() {
    let set = compile_globs(&list(&["*.rs", "docs/**"])).unwrap();
    assert_eq!(set.len(), 2);
    assert!(set.is_match("a.rs"));
    assert!(set.is_match("docs/guide/intro.md"));
    assert!(!set.is_match("a.txt"));
}

#[test]
fn compile_globs_of_nothing_matches_nothing() {
    let set = compile_globs(&list(&[])).unwrap();
    assert!(set.is_empty());
    assert!(!set.is_match("anything"));
}

#[test]
fn compile_globs_rejects_malformed_pattern() {
    let err = compile_globs(&list(&["a", "b[", "c"])).unwrap_err();
    assert_eq!(err, MergeError::InvalidPattern("b[".to_string()));
}

#[test]
fn default_excludes_are_the_fixed_list() {
    let list = default_excludes();
    assert_eq!(list.len(), 34);
    assert_eq!(list[0], ".git/**");
    assert_eq!(list[17], "docs/_build/**");
    assert_eq!(list[22], "*.lock");
    assert_eq!(list[33], "*.exe");
}

#[test]
fn default_excludes_compile() {
    assert!(compile_globs(&default_excludes()).is_ok());
}

#[test]
fn patterns_too_large_to_build_are_refused_together() {
    let patterns: Vec<String> =
        (0..400).map(|i| format!("{}{}", i, "[a-z]".repeat(2000))).collect();
    for pattern in patterns.iter().take(3) {
        assert!(compile_globs(&vec![pattern.clone()]).is_ok());
    }
    assert_eq!(compile_globs(&patterns).unwrap_err(), MergeError::InvalidPatternSet);
    assert_eq!(
        GlobFilter::new(&Vec::new(), &patterns).unwrap_err(),
        MergeError::InvalidPatternSet
    );
}

#[test]
fn long_patterns_compile() {
    assert_eq!(MATCHER_CAPACITY, i32::MAX as usize - 1);
    assert_eq!(MATCHER_OVERHEAD, 4096);
    let long = vec!["a".repeat(1_000_000), "b/**".to_string()];
    let set = compile_globs(&long).unwrap();
    assert!(set.is_match("b/c"));
    assert!(set.is_match("a".repeat(1_000_000)));
    assert!(!set.is_match("a"));
}

#[test]
fn many_patterns_compile() {
    let many: Vec<String> = (0..5000).map(|i| format!("dir{}/**", i)).collect();
    let set = compile_globs(&many).unwrap();
    assert_eq!(set.len(), 5000);
    assert!(set.is_match("dir4999/x"));
    assert!(!set.is_match("dir5000/x"));
}

#[test]
fn patterns_beyond_the_range_of_the_matcher_are_refused() {
    let mut many: Vec<String> = (0..50_000).map(|_| "ab*".to_string()).collect();
    assert!((many.len() + 1) * (3 * many.len() + MATCHER_OVERHEAD) > MATCHER_CAPACITY);
    assert_eq!(compile_globs(&many).unwrap_err(), MergeError::InvalidPatternSet);
    many.push("[".to_string());
    assert_eq!(compile_globs(&many).unwrap_err(), MergeError::InvalidPattern("[".to_string()));
}
