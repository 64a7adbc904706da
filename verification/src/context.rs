//! The final, fully resolved configuration and its initialization state
//! machine: parse the command-line tokens; fall back to, or merge with,
//! the configuration-file tokens; and re-parse the merged canonical token
//! sequence through the same schema.

use vstd::prelude::*;
use vstd::string::StringExecFns;

use crate::cli;
use crate::merge::merge_tokens;
use crate::numeral::parse_usize;

verus! {

/// The fully resolved configuration: one concrete value per recognized
/// option.
#[derive(Debug)]
pub struct Context {
    pub dir: Option<String>,
    pub disk_usage: String,
    pub glob: Vec<String>,
    pub iglob: Vec<String>,
    pub glob_case_insensitive: bool,
    pub hidden: bool,
    pub ignore_git: bool,
    pub icons: bool,
    pub ignore_git_ignore: bool,
    pub level: Option<usize>,
    pub scale: usize,
    pub prefix: String,
    pub prune: bool,
    pub sort: String,
    pub dirs_first: bool,
    pub follow_links: bool,
    pub threads: usize,
    pub suppress_size: bool,
    pub size_left: bool,
    pub no_config: bool,
    pub completions: Option<String>,
}

/// An initialization failure: the command-line tokens alone failed to
/// validate, or a configuration file was involved — either its own tokens
/// or the merged canonical sequence failed.
#[derive(Debug)]
pub enum Error {
    ArgParse(String),
    Config(String),
}

impl Error {
    /// The displayable message: a configuration-file failure is prefixed
    /// so it can be told apart from a plain command-line mistake.
    pub fn message(&self) -> (r: String)
        ensures
            (match self {
                Error::ArgParse(m) => r@ == m@,
                Error::Config(m) => r@ == "A configuration file was found but failed to parse: "@
                    + m@,
            }),
    {
        match self {
            Error::ArgParse(m) => m.clone(),
            Error::Config(m) => String::from_str(
                "A configuration file was found but failed to parse: ",
            ).concat(m.as_str()),
        }
    }
}

/// Parse the textual value of a numeric option, rendering a diagnostic
/// that names the flag when the text is not a decimal value in range.
fn numeric_value(text: &String, flag: &str) -> (r: Result<usize, String>)
    ensures
        r is Ok ==> text@.len() > 0 && crate::numeral::is_digits(text@) && r->Ok_0
            as nat == crate::numeral::dec_val(text@),
        r is Err ==> !(text@.len() > 0 && crate::numeral::is_digits(text@)
            && crate::numeral::dec_val(text@) <= usize::MAX),
{
    match parse_usize(text.as_str()) {
        Some(n) => Ok(n),
        None => Err(
            String::from_str("invalid numeric value '").concat(text.as_str()).concat(
                "' for the option '",
            ).concat(flag).concat("'"),
        ),
    }
}

/// Whether a numeric option's recorded text (if any) is a decimal value
/// in range.
pub open spec fn num_ok(t: Option<Seq<char>>) -> bool {
    match t {
        None => true,
        Some(s) => s.len() > 0 && crate::numeral::is_digits(s) && crate::numeral::dec_val(s)
            <= usize::MAX,
    }
}

/// Materialize a [`Context`] from a parse result, validating the numeric
/// options: it succeeds exactly when every numeric option's text is a
/// decimal value in range, and every field then equals the respective
/// read of the parse result, defaults standing in for absent values.
fn from_matches(m: &clap::ArgMatches) -> (r: Result<Context, String>)
    ensures
        r is Ok <==> (num_ok(cli::mat_text(*m, "level"@)) && num_ok(cli::mat_text(*m, "scale"@))
            && num_ok(cli::mat_text(*m, "threads"@))),
        r is Ok ==> (match cli::mat_text(*m, "dir"@) {
            Some(s) => r->Ok_0.dir is Some && r->Ok_0.dir->0@ == s,
            None => r->Ok_0.dir is None,
        }),
        r is Ok ==> r->Ok_0.disk_usage@ == cli::text_or(*m, "disk_usage"@, "logical"@),
        r is Ok ==> crate::text::strs(r->Ok_0.glob@) == cli::texts_of(*m, "glob"@),
        r is Ok ==> crate::text::strs(r->Ok_0.iglob@) == cli::texts_of(*m, "iglob"@),
        r is Ok ==> r->Ok_0.glob_case_insensitive == cli::flag_of(*m, "glob_case_insensitive"@),
        r is Ok ==> r->Ok_0.hidden == cli::flag_of(*m, "hidden"@),
        r is Ok ==> r->Ok_0.ignore_git == cli::flag_of(*m, "ignore_git"@),
        r is Ok ==> r->Ok_0.icons == cli::flag_of(*m, "icons"@),
        r is Ok ==> r->Ok_0.ignore_git_ignore == cli::flag_of(*m, "ignore_git_ignore"@),
        r is Ok ==> (match cli::mat_text(*m, "level"@) {
            Some(s) => r->Ok_0.level is Some && r->Ok_0.level->0 as nat == crate::numeral::dec_val(
                s,
            ),
            None => r->Ok_0.level is None,
        }),
        r is Ok ==> (match cli::mat_text(*m, "scale"@) {
            Some(s) => r->Ok_0.scale as nat == crate::numeral::dec_val(s),
            None => r->Ok_0.scale == 2,
        }),
        r is Ok ==> r->Ok_0.prefix@ == cli::text_or(*m, "prefix"@, "bin"@),
        r is Ok ==> r->Ok_0.prune == cli::flag_of(*m, "prune"@),
        r is Ok ==> r->Ok_0.sort@ == cli::text_or(*m, "sort"@, "none"@),
        r is Ok ==> r->Ok_0.dirs_first == cli::flag_of(*m, "dirs_first"@),
        r is Ok ==> r->Ok_0.follow_links == cli::flag_of(*m, "follow_links"@),
        r is Ok ==> (match cli::mat_text(*m, "threads"@) {
            Some(s) => r->Ok_0.threads as nat == crate::numeral::dec_val(s),
            None => r->Ok_0.threads == 1,
        }),
        r is Ok ==> r->Ok_0.suppress_size == cli::flag_of(*m, "suppress_size"@),
        r is Ok ==> r->Ok_0.size_left == cli::flag_of(*m, "size_left"@),
        r is Ok ==> r->Ok_0.no_config == cli::flag_of(*m, "no_config"@),
        r is Ok ==> (match cli::mat_text(*m, "completions"@) {
            Some(s) => r->Ok_0.completions is Some && r->Ok_0.completions->0@ == s,
            None => r->Ok_0.completions is None,
        }),
{
    let level: Option<usize> = match cli::string_value(m, "level") {
        Some(s) => match numeric_value(&s, "--level") {
            Ok(n) => Some(n),
            Err(e) => {
                return Err(e);
            },
        },
        None => None,
    };
    let scale: usize = match cli::string_value(m, "scale") {
        Some(s) => match numeric_value(&s, "--scale") {
            Ok(n) => n,
            Err(e) => {
                return Err(e);
            },
        },
        None => 2,
    };
    let threads: usize = match cli::string_value(m, "threads") {
        Some(s) => match numeric_value(&s, "--threads") {
            Ok(n) => n,
            Err(e) => {
                return Err(e);
            },
        },
        None => 1,
    };
    let disk_usage = match cli::string_value(m, "disk_usage") {
        Some(s) => s,
        None => String::from_str("logical"),
    };
    let prefix = match cli::string_value(m, "prefix") {
        Some(s) => s,
        None => String::from_str("bin"),
    };
    let sort = match cli::string_value(m, "sort") {
        Some(s) => s,
        None => String::from_str("none"),
    };
    Ok(
        Context {
            dir: cli::string_value(m, "dir"),
            disk_usage,
            glob: cli::string_values(m, "glob"),
            iglob: cli::string_values(m, "iglob"),
            glob_case_insensitive: cli::flag_value(m, "glob_case_insensitive"),
            hidden: cli::flag_value(m, "hidden"),
            ignore_git: cli::flag_value(m, "ignore_git"),
            icons: cli::flag_value(m, "icons"),
            ignore_git_ignore: cli::flag_value(m, "ignore_git_ignore"),
            level,
            scale,
            prefix,
            prune: cli::flag_value(m, "prune"),
            sort,
            dirs_first: cli::flag_value(m, "dirs_first"),
            follow_links: cli::flag_value(m, "follow_links"),
            threads,
            suppress_size: cli::flag_value(m, "suppress_size"),
            size_left: cli::flag_value(m, "size_left"),
            no_config: cli::flag_value(m, "no_config"),
            completions: cli::string_value(m, "completions"),
        },
    )
}

/// Whether every numeric option's recorded text in an outcome is a
/// decimal value in range.
pub open spec fn outcome_nums_ok(po: cli::ParseOutcome) -> bool {
    num_ok(cli::po_text(po, "level"@)) && num_ok(cli::po_text(po, "scale"@)) && num_ok(
        cli::po_text(po, "threads"@),
    )
}

/// The text an outcome yields for an option, the default standing in for
/// absence.
pub open spec fn outcome_text_or(po: cli::ParseOutcome, id: Seq<char>, d: Seq<char>) -> Seq<
    char,
> {
    match cli::po_text(po, id) {
        Some(s) => s,
        None => d,
    }
}

/// The values an outcome yields for a repeatable option, absence
/// counting as none.
pub open spec fn outcome_texts(po: cli::ParseOutcome, id: Seq<char>) -> Seq<Seq<char>> {
    match cli::po_texts(po, id) {
        Some(vs) => vs,
        None => Seq::empty(),
    }
}

/// Whether a configuration holds, field for field, what a parse outcome
/// records: flags by their recorded booleans, texts with their schema
/// defaults standing in for absence, and the numeric options as the
/// decimal values of their recorded texts.
pub open spec fn fields_match(c: Context, po: cli::ParseOutcome) -> bool {
    &&& (match cli::po_text(po, "dir"@) {
        Some(s) => c.dir is Some && c.dir->0@ == s,
        None => c.dir is None,
    })
    &&& c.disk_usage@ == outcome_text_or(po, "disk_usage"@, "logical"@)
    &&& crate::text::strs(c.glob@) == outcome_texts(po, "glob"@)
    &&& crate::text::strs(c.iglob@) == outcome_texts(po, "iglob"@)
    &&& c.glob_case_insensitive == cli::po_flag(po, "glob_case_insensitive"@)
    &&& c.hidden == cli::po_flag(po, "hidden"@)
    &&& c.ignore_git == cli::po_flag(po, "ignore_git"@)
    &&& c.icons == cli::po_flag(po, "icons"@)
    &&& c.ignore_git_ignore == cli::po_flag(po, "ignore_git_ignore"@)
    &&& (match cli::po_text(po, "level"@) {
        Some(s) => c.level is Some && c.level->0 as nat == crate::numeral::dec_val(s),
        None => c.level is None,
    })
    &&& (match cli::po_text(po, "scale"@) {
        Some(s) => c.scale as nat == crate::numeral::dec_val(s),
        None => c.scale == 2,
    })
    &&& c.prefix@ == outcome_text_or(po, "prefix"@, "bin"@)
    &&& c.prune == cli::po_flag(po, "prune"@)
    &&& c.sort@ == outcome_text_or(po, "sort"@, "none"@)
    &&& c.dirs_first == cli::po_flag(po, "dirs_first"@)
    &&& c.follow_links == cli::po_flag(po, "follow_links"@)
    &&& (match cli::po_text(po, "threads"@) {
        Some(s) => c.threads as nat == crate::numeral::dec_val(s),
        None => c.threads == 1,
    })
    &&& c.suppress_size == cli::po_flag(po, "suppress_size"@)
    &&& c.size_left == cli::po_flag(po, "size_left"@)
    &&& c.no_config == cli::po_flag(po, "no_config"@)
    &&& (match cli::po_text(po, "completions"@) {
        Some(s) => c.completions is Some && c.completions->0@ == s,
        None => c.completions is None,
    })
}

/// The outcome of parsing the invocation tokens (later occurrences
/// overriding earlier ones), behind the sentinel standing for the
/// program name.
pub open spec fn user_outcome(user_tokens: Seq<String>, dt: usize) -> cli::ParseOutcome {
    cli::parse_outcome(
        "erdtree"@,
        true,
        cli::schema_shapes(crate::numeral::dec_str(dt as nat)),
        seq!["--"@] + crate::text::strs(user_tokens),
    )
}

/// The outcome of parsing the configuration file's tokens.
pub open spec fn config_outcome(cfg_tokens: Seq<String>, dt: usize) -> cli::ParseOutcome {
    cli::parse_outcome(
        "erdtree"@,
        false,
        cli::schema_shapes(crate::numeral::dec_str(dt as nat)),
        seq!["--"@] + crate::text::strs(cfg_tokens),
    )
}

/// The outcome of re-parsing the merged canonical token sequence of the
/// two outcomes.
pub open spec fn merged_outcome(
    user_tokens: Seq<String>,
    cfg_tokens: Seq<String>,
    dt: usize,
) -> cli::ParseOutcome {
    cli::parse_outcome(
        "erdtree"@,
        false,
        cli::schema_shapes(crate::numeral::dec_str(dt as nat)),
        crate::merge::merged_of_outcomes(
            user_outcome(user_tokens, dt),
            config_outcome(cfg_tokens, dt),
        ),
    )
}

/// Whether initialization consults the configuration tokens: they exist
/// and the invocation did not disable them.
pub open spec fn uses_config(
    u: cli::ParseOutcome,
    config_tokens: Option<&Vec<String>>,
) -> bool {
    config_tokens is Some && !cli::po_flag(u, "no_config"@)
}

impl Context {
    /// The root directory as text: the configured one, or the current
    /// working directory.
    pub open spec fn dir_spec(self) -> Seq<char> {
        match self.dir {
            Some(d) => d@,
            None => "."@,
        }
    }

    /// Resolve the final configuration.
    ///
    /// `user_tokens` are the invocation's argument tokens (without the
    /// program name); `config_tokens` are the tokens recovered from the
    /// configuration file's text, or `None` when no file was found;
    /// `default_threads` is the detected logical core count used as the
    /// worker-count default.
    ///
    /// When configuration-file use is disabled or no file content exists,
    /// the command-line tokens alone decide the outcome, and any failure
    /// is of the command-line kind. When file content exists, either the
    /// file's tokens alone (no explicit user tokens) or the merged
    /// canonical sequence is re-parsed, and any failure on those paths is
    /// of the configuration kind.
    ///
    /// The contract follows the named parse outcomes (see [`crate::cli`]):
    /// each path's success, failure kind, diagnostic and resulting fields
    /// are those of the outcome the path re-parses — the invocation
    /// tokens alone, the configuration tokens alone, or the merged
    /// canonical sequence of the two.
    pub fn init(
        user_tokens: &Vec<String>,
        config_tokens: Option<&Vec<String>>,
        default_threads: usize,
    ) -> (r: Result<Context, Error>)
        ensures
            r is Err ==> (r->Err_0 is ArgParse || r->Err_0 is Config),
            (config_tokens is None && r is Err) ==> r->Err_0 is ArgParse,
            !user_outcome(user_tokens@, default_threads).ok ==> (r matches Err(
                Error::ArgParse(m),
            ) && m@ == user_outcome(user_tokens@, default_threads).diag),
            (user_outcome(user_tokens@, default_threads).ok && !uses_config(
                user_outcome(user_tokens@, default_threads),
                config_tokens,
            )) ==> {
                &&& (r is Ok <==> outcome_nums_ok(user_outcome(user_tokens@, default_threads)))
                &&& (r is Ok ==> fields_match(
                    r->Ok_0,
                    user_outcome(user_tokens@, default_threads),
                ))
                &&& (r is Err ==> r->Err_0 is ArgParse)
            },
            (user_outcome(user_tokens@, default_threads).ok && uses_config(
                user_outcome(user_tokens@, default_threads),
                config_tokens,
            )) ==> {
                let co = config_outcome((config_tokens->0)@, default_threads);
                let mo = merged_outcome(user_tokens@, (config_tokens->0)@, default_threads);
                &&& (!co.ok ==> (r matches Err(Error::Config(m)) && m@ == co.diag))
                &&& (r is Err ==> r->Err_0 is Config)
                &&& (co.ok && !user_outcome(user_tokens@, default_threads).present ==> {
                    &&& (r is Ok <==> outcome_nums_ok(co))
                    &&& (r is Ok ==> fields_match(r->Ok_0, co))
                })
                &&& (co.ok && user_outcome(user_tokens@, default_threads).present ==> {
                    &&& (!mo.ok ==> (r matches Err(Error::Config(m)) && m@ == mo.diag))
                    &&& (mo.ok ==> {
                        &&& (r is Ok <==> outcome_nums_ok(mo))
                        &&& (r is Ok ==> fields_match(r->Ok_0, mo))
                    })
                })
            },
    {
        let user_m = match cli::parse_tokens(
            cli::build_command(default_threads, true),
            user_tokens,
        ) {
            Ok(m) => m,
            Err(e) => {
                return Err(Error::ArgParse(e));
            },
        };
        let no_config = cli::flag_value(&user_m, "no_config");
        let cfg_tokens = match config_tokens {
            Some(t) if !no_config => t,
            _ => {
                return match from_matches(&user_m) {
                    Ok(c) => Ok(c),
                    Err(e) => Err(Error::ArgParse(e)),
                };
            },
        };
        let cfg_m = match cli::parse_tokens(
            cli::build_command(default_threads, false),
            cfg_tokens,
        ) {
            Ok(m) => m,
            Err(e) => {
                return Err(Error::Config(e));
            },
        };
        if !cli::args_present(&user_m) {
            return match from_matches(&cfg_m) {
                Ok(c) => Ok(c),
                Err(e) => Err(Error::Config(e)),
            };
        }
        let user_set = cli::extract_set(&user_m);
        let cfg_set = cli::extract_set(&cfg_m);
        proof {
            cli::lemma_reflect_reports(
                user_set,
                user_m,
                user_outcome(user_tokens@, default_threads),
            );
            cli::lemma_reflect_reports(
                cfg_set,
                cfg_m,
                config_outcome((config_tokens->0)@, default_threads),
            );
            crate::merge::lemma_merge_agrees(
                user_set,
                cfg_set,
                user_outcome(user_tokens@, default_threads),
                config_outcome((config_tokens->0)@, default_threads),
            );
        }
        let canonical = merge_tokens(&user_set, &cfg_set);
        let merged_m = match cli::parse_canonical(
            cli::build_command(default_threads, false),
            &canonical,
        ) {
            Ok(m) => m,
            Err(e) => {
                return Err(Error::Config(e));
            },
        };
        match from_matches(&merged_m) {
            Ok(c) => Ok(c),
            Err(e) => Err(Error::Config(e)),
        }
    }

    /// The root directory to be traversed; defaults to the current
    /// working directory.
    pub fn dir(&self) -> (r: String)
        ensures
            r@ == self.dir_spec(),
            (match self.dir {
                Some(d) => r@ == d@,
                None => r@ == "."@,
            }),
    {
        match &self.dir {
            Some(d) => d.clone(),
            None => String::from_str("."),
        }
    }

    /// The sort order used for printing.
    pub fn sort(&self) -> (r: &String)
        ensures
            r@ == self.sort@,
    {
        &self.sort
    }

    /// Whether directories are always listed above files.
    pub fn dirs_first(&self) -> (r: bool)
        ensures
            r == self.dirs_first,
    {
        self.dirs_first
    }

    /// The maximum depth to print.
    pub fn level(&self) -> (r: Option<usize>)
        ensures
            r == self.level,
    {
        self.level
    }

    /// Whether the `.git` entry is excluded.
    pub fn ignore_git(&self) -> (r: bool)
        ensures
            r == self.ignore_git,
    {
        self.ignore_git
    }

    /// The case-sensitive-by-default glob patterns.
    pub fn glob(&self) -> (r: &Vec<String>)
        ensures
            r@ == self.glob@,
    {
        &self.glob
    }

    /// The always-case-insensitive glob patterns.
    pub fn iglob(&self) -> (r: &Vec<String>)
        ensures
            r@ == self.iglob@,
    {
        &self.iglob
    }

    /// Whether plain glob patterns are forced case-insensitive.
    pub fn glob_case_insensitive(&self) -> (r: bool)
        ensures
            r == self.glob_case_insensitive,
    {
        self.glob_case_insensitive
    }

    /// Build a configuration directly from plain values; used by callers
    /// that assemble one without running the token parser.
    pub fn from_parts(
        dir: Option<String>,
        glob: Vec<String>,
        iglob: Vec<String>,
        glob_case_insensitive: bool,
        ignore_git: bool,
        sort: String,
        dirs_first: bool,
    ) -> (r: Context)
        ensures
            r.dir == dir,
            r.glob@ == glob@,
            r.iglob@ == iglob@,
            r.glob_case_insensitive == glob_case_insensitive,
            r.ignore_git == ignore_git,
            r.sort@ == sort@,
            r.dirs_first == dirs_first,
            r.disk_usage@ == "logical"@,
            r.hidden == false,
            r.icons == false,
            r.ignore_git_ignore == false,
            r.level is None,
            r.scale == 2,
            r.prefix@ == "bin"@,
            r.prune == false,
            r.follow_links == false,
            r.threads == 1,
            r.suppress_size == false,
            r.size_left == false,
            r.no_config == false,
            r.completions is None,
    {
        Context {
            dir,
            disk_usage: String::from_str("logical"),
            glob,
            iglob,
            glob_case_insensitive,
            hidden: false,
            ignore_git,
            icons: false,
            ignore_git_ignore: false,
            level: None,
            scale: 2,
            prefix: String::from_str("bin"),
            prune: false,
            sort,
            dirs_first,
            follow_links: false,
            threads: 1,
            suppress_size: false,
            size_left: false,
            no_config: false,
            completions: None,
        }
    }
}

} // verus!
