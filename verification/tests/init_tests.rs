use erdtree::context::{Context, Error};

fn toks(ts: &[&str]) -> Vec<String> {
    ts.iter().map(|s| String::from(*s)).collect()
}

#[test]
fn no_config_hidden_flag_sets_only_hidden() {
    let user = toks(&["--hidden"]);
    let ctx = Context::init(&user, None, 4).unwrap();
    assert!(ctx.hidden);
    assert_eq!(ctx.dir(), ".".to_string());
    assert_eq!(ctx.disk_usage, "logical".to_string());
    assert!(ctx.glob.is_empty());
    assert!(ctx.iglob.is_empty());
    assert!(!ctx.glob_case_insensitive);
    assert!(!ctx.ignore_git);
    assert!(!ctx.icons);
    assert!(!ctx.ignore_git_ignore);
    assert_eq!(ctx.level(), None);
    assert_eq!(ctx.scale, 2);
    assert_eq!(ctx.prefix, "bin".to_string());
    assert!(!ctx.prune);
    assert_eq!(ctx.sort(), &"none".to_string());
    assert!(!ctx.dirs_first());
    assert!(!ctx.follow_links);
    assert_eq!(ctx.threads, 4);
    assert!(!ctx.suppress_size);
    assert!(!ctx.size_left);
    assert!(!ctx.no_config);
    assert_eq!(ctx.completions, None);
}

#[test]
fn config_alone_decides_when_no_user_tokens() {
    let user = toks(&[]);
    let config = toks(&["--level", "3"]);
    let ctx = Context::init(&user, Some(&config), 4).unwrap();
    assert_eq!(ctx.level(), Some(3));
}

#[test]
fn explicit_user_token_overrides_config() {
    let user = toks(&["--level", "5"]);
    let config = toks(&["--level", "3"]);
    let ctx = Context::init(&user, Some(&config), 4).unwrap();
    assert_eq!(ctx.level(), Some(5));
}

#[test]
fn merge_keeps_both_sides_choices() {
    let user = toks(&["--hidden", "--sort", "name"]);
    let config = toks(&["--icons", "--scale", "4", "--sort", "size"]);
    let ctx = Context::init(&user, Some(&config), 4).unwrap();
    assert!(ctx.hidden);
    assert!(ctx.icons);
    assert_eq!(ctx.scale, 4);
    assert_eq!(ctx.sort(), &"name".to_string());
}

#[test]
fn boolean_flags_round_trip_through_merge() {
    let user = toks(&["--hidden"]);
    let config = toks(&["--prune"]);
    let ctx = Context::init(&user, Some(&config), 4).unwrap();
    assert!(ctx.hidden);
    assert!(ctx.prune);
    assert!(!ctx.icons);
}

#[test]
fn command_line_directory_wins_over_config() {
    let user = toks(&["/tmp/a", "--hidden"]);
    let config = toks(&["--icons"]);
    let ctx = Context::init(&user, Some(&config), 4).unwrap();
    assert_eq!(ctx.dir(), "/tmp/a".to_string());
    assert!(ctx.icons);
}

#[test]
fn config_directory_used_when_user_gave_no_tokens() {
    let user = toks(&[]);
    let config = toks(&["/tmp/b"]);
    let ctx = Context::init(&user, Some(&config), 4).unwrap();
    assert_eq!(ctx.dir(), "/tmp/b".to_string());
}

#[test]
fn no_config_flag_skips_the_config_file() {
    let user = toks(&["--no-config", "--hidden"]);
    let config = toks(&["--level", "3"]);
    let ctx = Context::init(&user, Some(&config), 4).unwrap();
    assert!(ctx.no_config);
    assert!(ctx.hidden);
    assert_eq!(ctx.level(), None);
}

#[test]
fn unknown_user_flag_is_an_arg_parse_error() {
    let user = toks(&["--bogus"]);
    let r = Context::init(&user, None, 4);
    assert!(matches!(r, Err(Error::ArgParse(_))));
}

#[test]
fn unknown_config_flag_is_a_config_error() {
    let user = toks(&["--hidden"]);
    let config = toks(&["--bogus"]);
    let r = Context::init(&user, Some(&config), 4);
    assert!(matches!(r, Err(Error::Config(_))));
}

#[test]
fn config_error_message_is_prefixed() {
    let e = Error::Config(String::from("boom"));
    assert_eq!(
        e.message(),
        "A configuration file was found but failed to parse: boom".to_string()
    );
    let a = Error::ArgParse(String::from("boom"));
    assert_eq!(a.message(), "boom".to_string());
}

#[test]
fn non_numeric_level_is_rejected() {
    let user = toks(&["--level", "abc"]);
    let r = Context::init(&user, None, 4);
    match r {
        Err(Error::ArgParse(m)) => assert!(m.contains("--level")),
        _ => panic!("expected a command-line parse failure"),
    }
}

#[test]
fn non_numeric_level_from_config_is_a_config_error() {
    let user = toks(&["--hidden"]);
    let config = toks(&["--level", "abc"]);
    let r = Context::init(&user, Some(&config), 4);
    assert!(matches!(r, Err(Error::Config(_))));
}

#[test]
fn threads_default_comes_from_detected_core_count() {
    let user = toks(&[]);
    let ctx = Context::init(&user, None, 7).unwrap();
    assert_eq!(ctx.threads, 7);
    let user2 = toks(&["--threads", "9"]);
    let ctx2 = Context::init(&user2, None, 7).unwrap();
    assert_eq!(ctx2.threads, 9);
}

#[test]
fn completions_value_is_recorded() {
    let user = toks(&["--completions", "bash"]);
    let ctx = Context::init(&user, None, 2).unwrap();
    assert_eq!(ctx.completions, Some("bash".to_string()));
}

#[test]
fn config_directory_beside_explicit_user_args_fails_as_config_error() {
    // The merger renders every non-special identifier behind a long-form
    // flag, and the positional directory has none; a directory that only
    // the configuration file supplies therefore cannot survive a merge
    // with explicit user tokens, and the re-parse rejects it as a
    // configuration-kind failure.
    let user = toks(&["--hidden"]);
    let config = toks(&["/tmp/b"]);
    let r = Context::init(&user, Some(&config), 4);
    assert!(matches!(r, Err(Error::Config(_))));
}

#[test]
fn out_of_range_level_is_rejected() {
    let user = toks(&["--level", "99999999999999999999999999"]);
    let r = Context::init(&user, None, 4);
    assert!(matches!(r, Err(Error::ArgParse(_))));
}

#[test]
fn glob_values_survive_the_merge() {
    let user = toks(&["--glob", "*.rs", "--hidden"]);
    let config = toks(&["--iglob", "*.MD"]);
    let ctx = Context::init(&user, Some(&config), 4).unwrap();
    assert_eq!(ctx.glob, vec!["*.rs".to_string()]);
    assert_eq!(ctx.iglob, vec!["*.MD".to_string()]);
}
