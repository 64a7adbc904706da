use erdtree::context::Context;
use erdtree::filter::{matched_verdict, Verdict};

fn ctx(
    glob: &[&str],
    iglob: &[&str],
    glob_case_insensitive: bool,
    ignore_git: bool,
) -> Context {
    Context::from_parts(
        Some(String::from("/tmp/filter-root")),
        glob.iter().map(|s| String::from(*s)).collect(),
        iglob.iter().map(|s| String::from(*s)).collect(),
        glob_case_insensitive,
        ignore_git,
        String::from("none"),
        false,
    )
}

#[test]
fn empty_filter_matches_every_path() {
    let c = ctx(&[], &[], false, false);
    let ov = c.overrides().unwrap();
    assert!(ov.matched("anything.txt", false).is_none());
    assert!(ov.matched(".git", true).is_none());
    assert!(ov.matched("deep/nested/file.rs", false).is_none());
}

#[test]
fn git_exclusion_rejects_git_at_root_and_accepts_the_rest() {
    let c = ctx(&[], &[], false, true);
    let ov = c.overrides().unwrap();
    assert!(ov.matched(".git", true).is_ignore());
    assert!(ov.matched("src", true).is_none());
    assert!(ov.matched("a.rs", false).is_none());
}

#[test]
fn git_exclusion_holds_beside_globs_that_do_not_match_it() {
    let c = ctx(&["*.rs"], &[], false, true);
    let ov = c.overrides().unwrap();
    assert!(ov.matched(".git", true).is_ignore());
    assert!(ov.matched("a.rs", false).is_whitelist());
}

#[test]
fn plain_glob_is_case_sensitive_by_default() {
    let c = ctx(&["*.RS"], &[], false, false);
    let ov = c.overrides().unwrap();
    assert!(!ov.matched("x.rs", false).is_whitelist());
    assert!(ov.matched("x.RS", false).is_whitelist());
}

#[test]
fn insensitive_glob_matches_either_case() {
    let with_flag = ctx(&[], &["*.RS"], true, false);
    let ov1 = with_flag.overrides().unwrap();
    assert!(ov1.matched("x.rs", false).is_whitelist());
    let without_flag = ctx(&[], &["*.RS"], false, false);
    let ov2 = without_flag.overrides().unwrap();
    assert!(ov2.matched("x.rs", false).is_whitelist());
    assert!(ov2.matched("X.rS", false).is_whitelist());
}

#[test]
fn case_flag_makes_plain_globs_insensitive() {
    let c = ctx(&["*.RS"], &[], true, false);
    let ov = c.overrides().unwrap();
    assert!(ov.matched("x.rs", false).is_whitelist());
}

#[test]
fn mixed_globs_keep_their_own_case_modes() {
    let c = ctx(&["*.rs"], &["*.MD"], false, false);
    let ov = c.overrides().unwrap();
    assert!(ov.matched("a.rs", false).is_whitelist());
    assert!(!ov.matched("A.RS", false).is_whitelist());
    assert!(ov.matched("b.md", false).is_whitelist());
    assert!(ov.matched("B.MD", false).is_whitelist());
}

#[test]
fn verdicts_distinguish_no_match_whitelist_and_exclusion() {
    let empty = ctx(&[], &[], false, false).overrides().unwrap();
    assert_eq!(matched_verdict(&empty, "anything", false), Verdict::NoMatch);
    assert_eq!(matched_verdict(&empty, ".git", true), Verdict::NoMatch);
    let with_globs = ctx(&["*.rs"], &[], false, true).overrides().unwrap();
    assert_eq!(matched_verdict(&with_globs, "a.rs", false), Verdict::Whitelisted);
    assert_eq!(matched_verdict(&with_globs, ".git", true), Verdict::Ignored);
    assert_eq!(matched_verdict(&with_globs, "a.txt", false), Verdict::Ignored);
}

#[test]
fn malformed_glob_reports_a_filter_error() {
    let c = ctx(&["a[bc"], &[], false, false);
    let r = c.overrides();
    assert!(r.is_err());
}
