//! Trusted boundary to the token parser (clap): declarations of the
//! parser's opaque types, wrappers for the calls the core makes, the
//! concrete option schema, and extraction of a [`crate::args::ParsedSet`]
//! from a parse result.
//!
//! The parser's behavior is named at two levels. Every command these
//! wrappers can produce is fully determined, from `Command::new`'s
//! defaults, by its name, its override-self setting and its options'
//! shapes (`cmd_name`, `cmd_osf`, `cmd_args`), so the outcome of a parse
//! is a function of that model and the tokens (`parse_outcome`). What a
//! successful parse holds is in turn a function of the parse result
//! itself, named per accessor (`mat_ids`, `mat_raw`, `mat_origin`, ...),
//! and a parse's accessor reads equal its outcome's records.

use vstd::prelude::*;
use vstd::string::StringExecFns;

use crate::args::{ArgEntry, ParsedSet, ValueOrigin};
use crate::numeral::usize_to_string;

verus! {

#[verifier::external_type_specification]
#[verifier::external_body]
pub struct ExCommand(clap::Command);

#[verifier::external_type_specification]
#[verifier::external_body]
pub struct ExArg(clap::Arg);

#[verifier::external_type_specification]
#[verifier::external_body]
pub struct ExArgMatches(clap::ArgMatches);

/// What `clap::ArgMatches::ids` returns on a parse result: the option
/// identifiers that carry values, in the parser's listed order.
pub uninterp spec fn mat_ids(m: clap::ArgMatches) -> Seq<Seq<char>>;

/// What `clap::ArgMatches::try_get_raw` returns for one identifier: the
/// raw textual values, if the identifier carries any.
pub uninterp spec fn mat_raw(m: clap::ArgMatches, id: Seq<char>) -> Option<Seq<Seq<char>>>;

/// What `clap::ArgMatches::value_source` reports for one identifier,
/// converted variant for variant.
pub uninterp spec fn mat_origin(m: clap::ArgMatches, id: Seq<char>) -> Option<ValueOrigin>;

/// What `clap::ArgMatches::try_get_one::<bool>` returns for one
/// identifier.
pub uninterp spec fn mat_flag(m: clap::ArgMatches, id: Seq<char>) -> Option<bool>;

/// What `clap::ArgMatches::try_get_one::<String>` returns for one
/// identifier.
pub uninterp spec fn mat_text(m: clap::ArgMatches, id: Seq<char>) -> Option<Seq<char>>;

/// What `clap::ArgMatches::try_get_many::<String>` returns for one
/// identifier.
pub uninterp spec fn mat_texts(m: clap::ArgMatches, id: Seq<char>) -> Option<Seq<Seq<char>>>;

/// What `clap::ArgMatches::args_present` returns on a parse result.
pub uninterp spec fn mat_present(m: clap::ArgMatches) -> bool;

/// How an option consumes tokens: one value, a bare switch, or one value
/// per occurrence.
pub enum ArgKind {
    Single,
    Switch,
    Repeat,
}

/// What one schema option holds: its identifier, its long and short
/// flags, how it consumes tokens, and its default value text.
pub struct ArgShape {
    pub id: Seq<char>,
    pub long: Option<Seq<char>>,
    pub short: Option<char>,
    pub kind: ArgKind,
    pub default_v: Option<Seq<char>>,
}

/// What the parser records for one identifier of a parse result, as the
/// accessors observe it.
pub struct ParsedEntry {
    pub id: Seq<char>,
    pub raw: Option<Seq<Seq<char>>>,
    pub origin: Option<ValueOrigin>,
    pub flag: Option<bool>,
    pub text: Option<Seq<char>>,
    pub texts: Option<Seq<Seq<char>>>,
}

/// What one run of the token parser yields, as the accessors observe it:
/// whether the token sequence validates, the rendered diagnostic when it
/// does not, whether any option was explicitly present, and the recorded
/// entries in listed order. Identifiers outside the entries yield no
/// accessor value.
pub struct ParseOutcome {
    pub ok: bool,
    pub diag: Seq<char>,
    pub present: bool,
    pub entries: Seq<ParsedEntry>,
}

/// What one schema option of a command holds (see [`ArgShape`]).
pub uninterp spec fn arg_shape(a: clap::Arg) -> ArgShape;

/// The name a command was created with.
pub uninterp spec fn cmd_name(c: clap::Command) -> Seq<char>;

/// The options registered in a command, in registration order.
pub uninterp spec fn cmd_args(c: clap::Command) -> Seq<ArgShape>;

/// Whether the command lets later occurrences of an option override
/// earlier ones.
pub uninterp spec fn cmd_osf(c: clap::Command) -> bool;

/// What `clap::Command::try_get_matches_from` yields for a schema and a
/// token sequence. Every command these wrappers can produce is fully
/// determined, from `Command::new`'s defaults, by its name, its
/// override-self setting and its options' shapes, so on such commands
/// the parse outcome is a function of those and the tokens alone — the
/// same grounds on which the filter module's pattern names stand.
pub uninterp spec fn parse_outcome(
    name: Seq<char>,
    osf: bool,
    args: Seq<ArgShape>,
    tokens: Seq<Seq<char>>,
) -> ParseOutcome;

/// The first recorded entry carrying the given identifier, if any.
pub open spec fn po_lookup(entries: Seq<ParsedEntry>, id: Seq<char>) -> Option<ParsedEntry>
    decreases entries.len(),
{
    if entries.len() == 0 {
        None
    } else if entries.first().id == id {
        Some(entries.first())
    } else {
        po_lookup(entries.drop_first(), id)
    }
}

/// The identifiers of an outcome, in listed order.
pub open spec fn po_ids(po: ParseOutcome) -> Seq<Seq<char>> {
    po.entries.map_values(|e: ParsedEntry| e.id)
}

pub open spec fn po_raw(po: ParseOutcome, id: Seq<char>) -> Option<Seq<Seq<char>>> {
    match po_lookup(po.entries, id) {
        Some(e) => e.raw,
        None => None,
    }
}

pub open spec fn po_origin(po: ParseOutcome, id: Seq<char>) -> Option<ValueOrigin> {
    match po_lookup(po.entries, id) {
        Some(e) => e.origin,
        None => None,
    }
}

pub open spec fn po_flagv(po: ParseOutcome, id: Seq<char>) -> Option<bool> {
    match po_lookup(po.entries, id) {
        Some(e) => e.flag,
        None => None,
    }
}

pub open spec fn po_text(po: ParseOutcome, id: Seq<char>) -> Option<Seq<char>> {
    match po_lookup(po.entries, id) {
        Some(e) => e.text,
        None => None,
    }
}

pub open spec fn po_texts(po: ParseOutcome, id: Seq<char>) -> Option<Seq<Seq<char>>> {
    match po_lookup(po.entries, id) {
        Some(e) => e.texts,
        None => None,
    }
}

/// Whether an identifier's value was explicitly written in the tokens.
pub open spec fn po_explicit(po: ParseOutcome, id: Seq<char>) -> bool {
    po_origin(po, id) == Some(ValueOrigin::Tokens)
}

/// The boolean an outcome yields for a flag, absence counting as false.
pub open spec fn po_flag(po: ParseOutcome, id: Seq<char>) -> bool {
    match po_flagv(po, id) {
        Some(b) => b,
        None => false,
    }
}

/// The outcome of parsing a token sequence with a command, keyed on the
/// command's model.
pub open spec fn cmd_outcome(c: clap::Command, tokens: Seq<Seq<char>>) -> ParseOutcome {
    parse_outcome(cmd_name(c), cmd_osf(c), cmd_args(c), tokens)
}

/// Whether a parse result reports, through every accessor, exactly what
/// the outcome records.
pub open spec fn reports(m: clap::ArgMatches, po: ParseOutcome) -> bool {
    &&& mat_ids(m) == po_ids(po)
    &&& mat_present(m) == po.present
    &&& forall|id: Seq<char>| #[trigger] mat_raw(m, id) == po_raw(po, id)
    &&& forall|id: Seq<char>| #[trigger] mat_origin(m, id) == po_origin(po, id)
    &&& forall|id: Seq<char>| #[trigger] mat_flag(m, id) == po_flagv(po, id)
    &&& forall|id: Seq<char>| #[trigger] mat_text(m, id) == po_text(po, id)
    &&& forall|id: Seq<char>| #[trigger] mat_texts(m, id) == po_texts(po, id)
}

/// Relies on `clap::Command::new`: creates the root of the option schema.
#[verifier::external_body]
fn cmd_new(name: &'static str) -> (r: clap::Command)
    ensures
        cmd_name(r) == name@,
        cmd_args(r) == Seq::<ArgShape>::empty(),
        cmd_osf(r) == false,
{
    clap::Command::new(name)
}

/// Relies on `clap::Command::args_override_self`: later occurrences of an
/// option on one token sequence override earlier ones.
#[verifier::external_body]
fn cmd_override_self(c: clap::Command, yes: bool) -> (r: clap::Command)
    ensures
        cmd_name(r) == cmd_name(c),
        cmd_args(r) == cmd_args(c),
        cmd_osf(r) == yes,
{
    c.args_override_self(yes)
}

/// Relies on `clap::Command::arg`: registers one option in the schema.
#[verifier::external_body]
fn cmd_arg(c: clap::Command, a: clap::Arg) -> (r: clap::Command)
    ensures
        cmd_name(r) == cmd_name(c),
        cmd_args(r) == cmd_args(c).push(arg_shape(a)),
        cmd_osf(r) == cmd_osf(c),
{
    c.arg(a)
}

/// Relies on `clap::Command::try_get_matches_from`: validates a token
/// sequence against the schema, treating the first token as the program
/// name; a failure is rendered to the parser's own diagnostic text. The
/// outcome is the [`parse_outcome`] of the command's model and the
/// tokens.
#[verifier::external_body]
fn cmd_parse(c: clap::Command, tokens: &Vec<String>) -> (r: Result<clap::ArgMatches, String>)
    ensures
        r is Ok <==> parse_outcome(cmd_name(c), cmd_osf(c), cmd_args(c), crate::text::strs(tokens@)).ok,
        r is Err ==> r->Err_0@ == parse_outcome(cmd_name(c), cmd_osf(c), cmd_args(c), crate::text::strs(tokens@)).diag,
        r is Ok ==> reports(r->Ok_0, parse_outcome(cmd_name(c), cmd_osf(c), cmd_args(c), crate::text::strs(tokens@))),
{
    match c.try_get_matches_from(tokens.clone()) {
        Ok(m) => Ok(m),
        Err(e) => Err(e.to_string()),
    }
}

/// Relies on `clap::Arg::new`: creates an option with the given identifier.
#[verifier::external_body]
fn arg_new(id: &'static str) -> (r: clap::Arg)
    ensures
        arg_shape(r) == (ArgShape {
            id: id@,
            long: None,
            short: None,
            kind: ArgKind::Single,
            default_v: None,
        }),
{
    clap::Arg::new(id)
}

/// Relies on `clap::Arg::long`: sets the option's long-form flag.
#[verifier::external_body]
fn arg_long(a: clap::Arg, l: &'static str) -> (r: clap::Arg)
    ensures
        arg_shape(r) == (ArgShape { long: Some(l@), ..arg_shape(a) }),
{
    a.long(l)
}

/// Relies on `clap::Arg::short`: sets the option's short-form flag; a
/// hyphen is refused by the parser's own debug assertion, so it is ruled
/// out here.
#[verifier::external_body]
fn arg_short(a: clap::Arg, s: char) -> (r: clap::Arg)
    requires
        s != '-',
    ensures
        arg_shape(r) == (ArgShape { short: Some(s), ..arg_shape(a) }),
{
    a.short(s)
}

/// Relies on `clap::Arg::action` with `ArgAction::SetTrue`: the option is a
/// boolean flag, false by default.
#[verifier::external_body]
fn arg_flag(a: clap::Arg) -> (r: clap::Arg)
    ensures
        arg_shape(r) == (ArgShape { kind: ArgKind::Switch, ..arg_shape(a) }),
{
    a.action(clap::ArgAction::SetTrue)
}

/// Relies on `clap::Arg::action` with `ArgAction::Append`: the option is
/// repeatable and collects every occurrence's value.
#[verifier::external_body]
fn arg_append(a: clap::Arg) -> (r: clap::Arg)
    ensures
        arg_shape(r) == (ArgShape { kind: ArgKind::Repeat, ..arg_shape(a) }),
{
    a.action(clap::ArgAction::Append)
}

/// Relies on `clap::Arg::default_value`: the value used when the option is
/// absent from the token sequence.
#[verifier::external_body]
fn arg_default(a: clap::Arg, v: String) -> (r: clap::Arg)
    ensures
        arg_shape(r) == (ArgShape { default_v: Some(v@), ..arg_shape(a) }),
{
    a.default_value(v)
}

/// Relies on `clap::ArgMatches::ids`: the identifiers that carry values,
/// in the parser's listed order.
#[verifier::external_body]
fn m_ids(m: &clap::ArgMatches) -> (r: Vec<String>)
    ensures
        crate::text::strs(r@) == mat_ids(*m),
{
    m.ids().map(|i| i.as_str().to_owned()).collect()
}

/// Relies on `clap::ArgMatches::value_source` (guarded by
/// `try_contains_id` so an unknown identifier reports no origin rather
/// than aborting): where the identifier's value came from.
#[verifier::external_body]
fn m_origin(m: &clap::ArgMatches, id: &str) -> (r: Option<ValueOrigin>)
    ensures
        r == mat_origin(*m, id@),
{
    match m.try_contains_id(id) {
        Err(_) => None,
        Ok(_) => match m.value_source(id) {
            None => None,
            Some(clap::parser::ValueSource::CommandLine) => Some(ValueOrigin::Tokens),
            Some(clap::parser::ValueSource::DefaultValue) => Some(ValueOrigin::SchemaDefault),
            Some(_) => Some(ValueOrigin::Other),
        },
    }
}

/// Relies on `clap::ArgMatches::try_get_raw`: the raw textual values
/// recorded for an identifier, if any.
#[verifier::external_body]
fn m_raw(m: &clap::ArgMatches, id: &str) -> (r: Option<Vec<String>>)
    ensures
        (match r {
            Some(vs) => mat_raw(*m, id@) == Some(crate::text::strs(vs@)),
            None => mat_raw(*m, id@) is None,
        }),
{
    match m.try_get_raw(id) {
        Ok(Some(raw)) => Some(raw.map(|os| os.to_string_lossy().into_owned()).collect()),
        _ => None,
    }
}

/// Relies on `clap::ArgMatches::args_present`: whether any option was
/// explicitly present in the parsed token sequence (schema defaults do not
/// count).
#[verifier::external_body]
fn m_args_present(m: &clap::ArgMatches) -> (r: bool)
    ensures
        r == mat_present(*m),
{
    m.args_present()
}

/// Relies on `clap::ArgMatches::try_get_one::<bool>`: the value of a
/// boolean flag, if the identifier carries one.
#[verifier::external_body]
fn m_bool(m: &clap::ArgMatches, id: &str) -> (r: Option<bool>)
    ensures
        r == mat_flag(*m, id@),
{
    match m.try_get_one::<bool>(id) {
        Ok(Some(b)) => Some(*b),
        _ => None,
    }
}

/// Relies on `clap::ArgMatches::try_get_one::<String>`: the textual value
/// of an option, if the identifier carries one.
#[verifier::external_body]
fn m_string(m: &clap::ArgMatches, id: &str) -> (r: Option<String>)
    ensures
        (match r {
            Some(s) => mat_text(*m, id@) == Some(s@),
            None => mat_text(*m, id@) is None,
        }),
{
    match m.try_get_one::<String>(id) {
        Ok(Some(s)) => Some(s.clone()),
        _ => None,
    }
}

/// Relies on `clap::ArgMatches::try_get_many::<String>`: all textual
/// values of a repeatable option, in order of appearance.
#[verifier::external_body]
fn m_strings(m: &clap::ArgMatches, id: &str) -> (r: Option<Vec<String>>)
    ensures
        (match r {
            Some(vs) => mat_texts(*m, id@) == Some(crate::text::strs(vs@)),
            None => mat_texts(*m, id@) is None,
        }),
{
    match m.try_get_many::<String>(id) {
        Ok(Some(vs)) => Some(vs.cloned().collect()),
        _ => None,
    }
}

/// A positional option: no flags, one value, no default.
pub open spec fn shape_positional(id: Seq<char>) -> ArgShape {
    ArgShape { id, long: None, short: None, kind: ArgKind::Single, default_v: None }
}

/// A boolean flag: long (and maybe short) form, no value token.
pub open spec fn shape_switch(id: Seq<char>, long: Seq<char>, short: Option<char>) -> ArgShape {
    ArgShape { id, long: Some(long), short, kind: ArgKind::Switch, default_v: None }
}

/// A valued option: long (and maybe short) form, one value token, maybe
/// a default.
pub open spec fn shape_valued(
    id: Seq<char>,
    long: Seq<char>,
    short: Option<char>,
    dft: Option<Seq<char>>,
) -> ArgShape {
    ArgShape { id, long: Some(long), short, kind: ArgKind::Single, default_v: dft }
}

/// A repeatable option: one value token per occurrence.
pub open spec fn shape_repeat(id: Seq<char>, long: Seq<char>, short: Option<char>) -> ArgShape {
    ArgShape { id, long: Some(long), short, kind: ArgKind::Repeat, default_v: None }
}

/// The schema's options, in registration order; the worker-count default
/// is the rendered detected core count.
pub open spec fn schema_shapes(threads_default: Seq<char>) -> Seq<ArgShape> {
    Seq::<ArgShape>::empty().push(shape_positional("dir"@)).push(
        shape_valued("disk_usage"@, "disk-usage"@, Some('d'), Some("logical"@)),
    ).push(shape_repeat("glob"@, "glob"@, Some('g'))).push(
        shape_repeat("iglob"@, "iglob"@, None),
    ).push(shape_switch("glob_case_insensitive"@, "glob-case-insensitive"@, None)).push(
        shape_switch("hidden"@, "hidden"@, Some('H')),
    ).push(shape_switch("ignore_git"@, "ignore-git"@, None)).push(
        shape_switch("icons"@, "icons"@, Some('I')),
    ).push(shape_switch("ignore_git_ignore"@, "ignore-git-ignore"@, Some('i'))).push(
        shape_valued("level"@, "level"@, Some('l'), None),
    ).push(shape_valued("scale"@, "scale"@, Some('n'), Some("2"@))).push(
        shape_valued("prefix"@, "prefix"@, Some('p'), Some("bin"@)),
    ).push(shape_switch("prune"@, "prune"@, Some('P'))).push(
        shape_valued("sort"@, "sort"@, Some('s'), Some("none"@)),
    ).push(shape_switch("dirs_first"@, "dirs-first"@, None)).push(
        shape_switch("follow_links"@, "follow-links"@, Some('S')),
    ).push(shape_valued("threads"@, "threads"@, Some('t'), Some(threads_default))).push(
        shape_switch("suppress_size"@, "suppress-size"@, None),
    ).push(shape_switch("size_left"@, "size-left"@, None)).push(
        shape_switch("no_config"@, "no-config"@, None),
    ).push(shape_valued("completions"@, "completions"@, None, None))
}

/// Build the option schema: every recognized option, its flags, its
/// arity and its default. The worker-count default is the caller's
/// detected logical core count.
pub fn build_command(default_threads: usize, override_self: bool) -> (r: clap::Command)
    ensures
        cmd_name(r) == "erdtree"@,
        cmd_osf(r) == override_self,
        cmd_args(r) == schema_shapes(crate::numeral::dec_str(default_threads as nat)),
{
    let mut c = cmd_new("erdtree");
    if override_self {
        c = cmd_override_self(c, true);
    }
    c = cmd_arg(c, arg_new("dir"));
    c = cmd_arg(c, arg_default(arg_short(arg_long(arg_new("disk_usage"), "disk-usage"), 'd'), String::from_str("logical")));
    c = cmd_arg(c, arg_append(arg_short(arg_long(arg_new("glob"), "glob"), 'g')));
    c = cmd_arg(c, arg_append(arg_long(arg_new("iglob"), "iglob")));
    c = cmd_arg(c, arg_flag(arg_long(arg_new("glob_case_insensitive"), "glob-case-insensitive")));
    c = cmd_arg(c, arg_flag(arg_short(arg_long(arg_new("hidden"), "hidden"), 'H')));
    c = cmd_arg(c, arg_flag(arg_long(arg_new("ignore_git"), "ignore-git")));
    c = cmd_arg(c, arg_flag(arg_short(arg_long(arg_new("icons"), "icons"), 'I')));
    c = cmd_arg(c, arg_flag(arg_short(arg_long(arg_new("ignore_git_ignore"), "ignore-git-ignore"), 'i')));
    c = cmd_arg(c, arg_short(arg_long(arg_new("level"), "level"), 'l'));
    c = cmd_arg(c, arg_default(arg_short(arg_long(arg_new("scale"), "scale"), 'n'), String::from_str("2")));
    c = cmd_arg(c, arg_default(arg_short(arg_long(arg_new("prefix"), "prefix"), 'p'), String::from_str("bin")));
    c = cmd_arg(c, arg_flag(arg_short(arg_long(arg_new("prune"), "prune"), 'P')));
    c = cmd_arg(c, arg_default(arg_short(arg_long(arg_new("sort"), "sort"), 's'), String::from_str("none")));
    c = cmd_arg(c, arg_flag(arg_long(arg_new("dirs_first"), "dirs-first")));
    c = cmd_arg(c, arg_flag(arg_short(arg_long(arg_new("follow_links"), "follow-links"), 'S')));
    c = cmd_arg(c, arg_default(arg_short(arg_long(arg_new("threads"), "threads"), 't'), usize_to_string(default_threads)));
    c = cmd_arg(c, arg_flag(arg_long(arg_new("suppress_size"), "suppress-size")));
    c = cmd_arg(c, arg_flag(arg_long(arg_new("size_left"), "size-left")));
    c = cmd_arg(c, arg_flag(arg_long(arg_new("no_config"), "no-config")));
    c = cmd_arg(c, arg_long(arg_new("completions"), "completions"));
    proof {
        assert(cmd_args(c) =~= schema_shapes(crate::numeral::dec_str(default_threads as nat)));
    }
    c
}

/// Parse a token sequence against the schema. A sentinel token standing
/// for the program name is prepended, so the whole sequence is treated
/// uniformly as arguments.
pub fn parse_tokens(c: clap::Command, tokens: &Vec<String>) -> (r: Result<
    clap::ArgMatches,
    String,
>)
    ensures
        r is Ok <==> cmd_outcome(c, seq!["--"@] + crate::text::strs(tokens@)).ok,
        r is Err ==> r->Err_0@ == cmd_outcome(c, seq!["--"@] + crate::text::strs(tokens@)).diag,
        r is Ok ==> reports(r->Ok_0, cmd_outcome(c, seq!["--"@] + crate::text::strs(tokens@))),
{
    let mut with_sentinel: Vec<String> = Vec::new();
    with_sentinel.push(String::from_str("--"));
    let n: usize = tokens.len();
    let mut i: usize = 0;
    proof {
        assert(crate::text::strs(with_sentinel@) =~= seq!["--"@] + crate::text::strs(
            tokens@,
        ).take(0));
    }
    while i < n
        invariant
            i <= n == tokens@.len(),
            crate::text::strs(with_sentinel@) == seq!["--"@] + crate::text::strs(tokens@).take(
                i as int,
            ),
        decreases n - i,
    {
        let ghost pre = with_sentinel@;
        with_sentinel.push(tokens[i].clone());
        proof {
            crate::text::lemma_strs_push(pre, tokens@[i as int]);
            assert(crate::text::strs(with_sentinel@) =~= seq!["--"@] + crate::text::strs(
                tokens@,
            ).take(i as int + 1));
        }
        i += 1;
    }
    proof {
        assert(crate::text::strs(tokens@).take(n as int) =~= crate::text::strs(tokens@));
    }
    cmd_parse(c, &with_sentinel)
}

/// Parse the merger's canonical token sequence, which already begins
/// with the sentinel token standing for the program name.
pub fn parse_canonical(c: clap::Command, tokens: &Vec<String>) -> (r: Result<
    clap::ArgMatches,
    String,
>)
    ensures
        r is Ok <==> cmd_outcome(c, crate::text::strs(tokens@)).ok,
        r is Err ==> r->Err_0@ == cmd_outcome(c, crate::text::strs(tokens@)).diag,
        r is Ok ==> reports(r->Ok_0, cmd_outcome(c, crate::text::strs(tokens@))),
{
    cmd_parse(c, tokens)
}

/// The boolean a flag read yields, absence counting as false.
pub open spec fn flag_of(m: clap::ArgMatches, id: Seq<char>) -> bool {
    match mat_flag(m, id) {
        Some(b) => b,
        None => false,
    }
}

/// The text an option read yields, the given default standing in for
/// absence.
pub open spec fn text_or(m: clap::ArgMatches, id: Seq<char>, d: Seq<char>) -> Seq<char> {
    match mat_text(m, id) {
        Some(s) => s,
        None => d,
    }
}

/// The values a repeatable-option read yields, absence counting as none.
pub open spec fn texts_of(m: clap::ArgMatches, id: Seq<char>) -> Seq<Seq<char>> {
    match mat_texts(m, id) {
        Some(vs) => vs,
        None => Seq::empty(),
    }
}

/// Whether any option was explicitly present in the parsed tokens.
pub fn args_present(m: &clap::ArgMatches) -> (r: bool)
    ensures
        r == mat_present(*m),
{
    m_args_present(m)
}

/// The boolean value recorded for a flag, absence counting as false.
pub fn flag_value(m: &clap::ArgMatches, id: &str) -> (r: bool)
    ensures
        r == flag_of(*m, id@),
{
    match m_bool(m, id) {
        Some(b) => b,
        None => false,
    }
}

/// The textual value recorded for an option, if any.
pub fn string_value(m: &clap::ArgMatches, id: &str) -> (r: Option<String>)
    ensures
        (match r {
            Some(s) => mat_text(*m, id@) == Some(s@),
            None => mat_text(*m, id@) is None,
        }),
{
    m_string(m, id)
}

/// All textual values recorded for a repeatable option, absence counting
/// as no values.
pub fn string_values(m: &clap::ArgMatches, id: &str) -> (r: Vec<String>)
    ensures
        crate::text::strs(r@) == texts_of(*m, id@),
{
    match m_strings(m, id) {
        Some(vs) => vs,
        None => {
            let empty: Vec<String> = Vec::new();
            proof {
                assert(crate::text::strs(empty@) =~= Seq::<Seq<char>>::empty());
            }
            empty
        },
    }
}

/// A found entry stands at some index with the looked-up identifier; a
/// miss means no entry carries it.
pub proof fn lemma_po_lookup_character(entries: Seq<ParsedEntry>, id: Seq<char>)
    ensures
        (match po_lookup(entries, id) {
            Some(e) => exists|i: int|
                0 <= i < entries.len() && entries[i] == e && (#[trigger] entries[i]).id == id,
            None => forall|i: int| 0 <= i < entries.len() ==> (#[trigger] entries[i]).id != id,
        }),
    decreases entries.len(),
{
    if entries.len() > 0 {
        lemma_po_lookup_character(entries.drop_first(), id);
        if entries.first().id == id {
            assert(entries[0] == entries.first());
        } else {
            match po_lookup(entries.drop_first(), id) {
                Some(e) => {
                    let i = choose|i: int|
                        0 <= i < entries.drop_first().len() && entries.drop_first()[i] == e
                            && entries.drop_first()[i].id == id;
                    assert(entries[i + 1] == e);
                    assert(entries[i + 1].id == id);
                },
                None => {
                    assert forall|i: int|
                        0 <= i < entries.len() implies (#[trigger] entries[i]).id != id by {
                        if i > 0 {
                            assert(entries.drop_first()[i - 1] == entries[i]);
                        }
                    }
                },
            }
        }
    }
}

/// Whether a parsed argument set records, entry for entry, what the
/// accessors report of a parse result: the identifiers in listed order,
/// each with its raw values and whether the parser saw it written in the
/// parsed tokens.
pub open spec fn reflects(set: ParsedSet, m: clap::ArgMatches) -> bool {
    &&& set.ids_spec() == mat_ids(m)
    &&& forall|i: int|
        0 <= i < set.entries@.len() ==> (#[trigger] set.entries@[i]).raw_spec() == mat_raw(
            m,
            set.entries@[i].id@,
        )
    &&& forall|i: int|
        0 <= i < set.entries@.len() ==> (#[trigger] set.entries@[i]).explicit == (mat_origin(
            m,
            set.entries@[i].id@,
        ) == Some(ValueOrigin::Tokens))
}

/// A set extracted from a parse result observes, identifier for
/// identifier, what the parse's outcome records: same identifier list,
/// and the same raw values and explicitness under lookup.
pub proof fn lemma_reflect_reports(set: ParsedSet, m: clap::ArgMatches, po: ParseOutcome)
    requires
        reflects(set, m),
        reports(m, po),
    ensures
        set.ids_spec() == po_ids(po),
        forall|id: Seq<char>| #[trigger] set.raw_of(id) == po_raw(po, id),
        forall|id: Seq<char>| #[trigger] set.explicit(id) == po_explicit(po, id),
{
    assert(set.ids_spec() == po_ids(po));
    assert(set.entries@.len() == po.entries.len()) by {
        assert(set.ids_spec().len() == po_ids(po).len());
    }
    assert forall|id: Seq<char>| #[trigger] set.raw_of(id) == po_raw(po, id) && set.explicit(id)
        == po_explicit(po, id) by {
        ParsedSet::lemma_lookup_in_character(set.entries@, id);
        lemma_po_lookup_character(po.entries, id);
        match ParsedSet::lookup_in(set.entries@, id) {
            Some(e) => {
                let i = choose|i: int|
                    0 <= i < set.entries@.len() && set.entries@[i] == e && set.entries@[i].id@
                        == id;
                assert(e.raw_spec() == mat_raw(m, id));
                assert(e.explicit == (mat_origin(m, id) == Some(ValueOrigin::Tokens)));
                match po_lookup(po.entries, id) {
                    Some(pe) => {
                        assert(pe.raw == mat_raw(m, id));
                        assert(pe.origin == mat_origin(m, id));
                    },
                    None => {
                        assert(set.ids_spec()[i] == id);
                        assert(po_ids(po)[i] == po.entries[i].id);
                        assert(po.entries[i].id == id);
                        assert(false);
                    },
                }
            },
            None => {
                match po_lookup(po.entries, id) {
                    Some(pe) => {
                        let i = choose|i: int|
                            0 <= i < po.entries.len() && po.entries[i] == pe && po.entries[i].id
                                == id;
                        assert(po_ids(po)[i] == id);
                        assert(set.ids_spec()[i] == po_ids(po)[i]);
                        assert(set.entries@[i].id@ == set.ids_spec()[i]);
                        assert(set.entries@[i].id@ == id);
                        assert(false);
                    },
                    None => {},
                }
            },
        }
    }
    assert forall|id: Seq<char>| #[trigger] set.explicit(id) == po_explicit(po, id) by {
        assert(set.raw_of(id) == po_raw(po, id) && set.explicit(id) == po_explicit(po, id));
    }
}

/// Extract the parsed argument set of a parse result: every identifier
/// the parser lists, its raw values, and whether it was explicitly
/// written in the parsed tokens.
pub fn extract_set(m: &clap::ArgMatches) -> (r: ParsedSet)
    ensures
        reflects(r, *m),
{
    let ids = m_ids(m);
    let mut set = ParsedSet::new();
    let n: usize = ids.len();
    let mut i: usize = 0;
    proof {
        assert(set.ids_spec() =~= crate::text::strs(ids@).take(0));
    }
    while i < n
        invariant
            i <= n == ids@.len(),
            crate::text::strs(ids@) == mat_ids(*m),
            set.entries@.len() == i,
            set.ids_spec() == crate::text::strs(ids@).take(i as int),
            forall|j: int|
                0 <= j < i ==> (#[trigger] set.entries@[j]).raw_spec() == mat_raw(
                    *m,
                    set.entries@[j].id@,
                ),
            forall|j: int|
                0 <= j < i ==> (#[trigger] set.entries@[j]).explicit == (mat_origin(
                    *m,
                    set.entries@[j].id@,
                ) == Some(ValueOrigin::Tokens)),
        decreases n - i,
    {
        let id = &ids[i];
        let explicit = match m_origin(m, id.as_str()) {
            Some(ValueOrigin::Tokens) => true,
            _ => false,
        };
        let raw = m_raw(m, id.as_str());
        let ghost pre = set.entries@;
        set.push(ArgEntry { id: id.clone(), raw, explicit });
        proof {
            assert(set.ids_spec() =~= crate::text::strs(ids@).take(i as int + 1));
        }
        i += 1;
    }
    proof {
        assert(crate::text::strs(ids@).take(n as int) =~= crate::text::strs(ids@));
    }
    set
}

} // verus!
