use erdtree::args::{ArgEntry, ParsedSet};
use erdtree::merge::{merge_tokens, uniq};
use erdtree::text::make_long_flag;

fn entry(id: &str, raw: Option<Vec<&str>>, explicit: bool) -> ArgEntry {
    ArgEntry {
        id: String::from(id),
        raw: raw.map(|vs| vs.into_iter().map(String::from).collect()),
        explicit,
    }
}

fn set(entries: Vec<ArgEntry>) -> ParsedSet {
    ParsedSet { entries }
}

#[test]
fn uniq_keeps_first_occurrences_in_order() {
    let ids: Vec<String> = ["A", "B", "A", "C"].iter().map(|s| String::from(*s)).collect();
    let out = uniq(&ids);
    assert_eq!(out, vec!["A".to_string(), "B".to_string(), "C".to_string()]);
}

#[test]
fn uniq_is_idempotent_on_concrete_lists() {
    let first: Vec<String> = ["A", "B", "A", "C"].iter().map(|s| String::from(*s)).collect();
    let second: Vec<String> = ["A", "B", "C"].iter().map(|s| String::from(*s)).collect();
    let once_first = uniq(&first);
    let once_second = uniq(&second);
    assert_eq!(once_first, once_second);
    assert_eq!(uniq(&once_first), once_first);
}

#[test]
fn kebab_flag_token() {
    assert_eq!(
        make_long_flag("glob_case_insensitive"),
        "--glob-case-insensitive".to_string()
    );
    assert_eq!(make_long_flag("level"), "--level".to_string());
}

#[test]
fn command_line_value_wins_when_explicit() {
    let cmd = set(vec![entry("sort", Some(vec!["name"]), true)]);
    let cfg = set(vec![entry("sort", Some(vec!["size"]), true)]);
    let tokens = merge_tokens(&cmd, &cfg);
    assert_eq!(tokens, vec!["--", "--sort", "name"]);
}

#[test]
fn config_value_wins_when_command_line_only_defaulted() {
    let cmd = set(vec![entry("sort", Some(vec!["none"]), false)]);
    let cfg = set(vec![entry("sort", Some(vec!["size"]), true)]);
    let tokens = merge_tokens(&cmd, &cfg);
    assert_eq!(tokens, vec!["--", "--sort", "size"]);
}

#[test]
fn directory_raw_value_copied_verbatim() {
    let cmd = set(vec![entry("dir", Some(vec!["/tmp/a"]), false)]);
    let cfg = set(vec![entry("dir", Some(vec!["/tmp/b"]), true)]);
    let tokens = merge_tokens(&cmd, &cfg);
    assert_eq!(tokens, vec!["--", "/tmp/a"]);
}

#[test]
fn root_identifier_is_skipped() {
    let cmd = set(vec![entry("Context", None, false), entry("hidden", Some(vec!["true"]), true)]);
    let cfg = set(vec![]);
    let tokens = merge_tokens(&cmd, &cfg);
    assert_eq!(tokens, vec!["--", "--hidden"]);
}

#[test]
fn boolean_true_renders_bare_flag_and_false_renders_absence() {
    let cmd = set(vec![
        entry("hidden", Some(vec!["true"]), true),
        entry("icons", Some(vec!["false"]), true),
    ]);
    let cfg = set(vec![]);
    let tokens = merge_tokens(&cmd, &cfg);
    assert_eq!(tokens, vec!["--", "--hidden"]);
}

#[test]
fn repeatable_values_each_get_their_flag() {
    let cmd = set(vec![entry("glob", Some(vec!["*.rs", "*.md"]), true)]);
    let cfg = set(vec![]);
    let tokens = merge_tokens(&cmd, &cfg);
    assert_eq!(tokens, vec!["--", "--glob", "*.rs", "--glob", "*.md"]);
}

#[test]
fn union_keeps_command_line_identifiers_first() {
    let cmd = set(vec![entry("hidden", Some(vec!["true"]), true)]);
    let cfg = set(vec![
        entry("level", Some(vec!["3"]), true),
        entry("hidden", Some(vec!["false"]), false),
    ]);
    let tokens = merge_tokens(&cmd, &cfg);
    assert_eq!(tokens, vec!["--", "--hidden", "--level", "3"]);
}
