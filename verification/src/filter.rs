//! The override compiler: turns the configuration's glob lists and flags
//! into a compiled path filter of the ignore crate.
//!
//! Order is the contract here: the glob engine applies case sensitivity
//! as a mutable mode affecting only subsequently added patterns, so the
//! verified compiler pins down exactly which patterns are added, in which
//! order, and under which case mode.

use vstd::prelude::*;

use crate::context::Context;
use crate::text::strs;

verus! {

#[verifier::external_type_specification]
#[verifier::external_body]
pub struct ExOverrideBuilder(ignore::overrides::OverrideBuilder);

#[verifier::external_type_specification]
#[verifier::external_body]
pub struct ExOverride(ignore::overrides::Override);

/// The patterns a filter builder holds so far, in order of addition, each
/// tagged with the case-insensitivity mode it was added under.
pub uninterp spec fn ob_globs(b: ignore::overrides::OverrideBuilder) -> Seq<(Seq<char>, bool)>;

/// The case-insensitivity mode the builder currently applies to newly
/// added patterns.
pub uninterp spec fn ob_case(b: ignore::overrides::OverrideBuilder) -> bool;

/// The root directory a builder was created at: matching is done relative
/// to it.
pub uninterp spec fn ob_root(b: ignore::overrides::OverrideBuilder) -> Seq<char>;

/// The root directory a compiled filter matches relative to.
pub uninterp spec fn over_root(o: ignore::overrides::Override) -> Seq<char>;

/// The verdict the engine reaches for a path against a compiled pattern
/// program at a root: the verdict is a function of the root, the
/// patterns with their case modes, the path and the directory flag
/// alone.
pub uninterp spec fn verdict_of(
    root: Seq<char>,
    globs: Seq<(Seq<char>, bool)>,
    path: Seq<char>,
    is_dir: bool,
) -> Verdict;

/// The patterns a compiled filter was built from, in order of addition,
/// each tagged with its case-insensitivity mode.
pub uninterp spec fn over_globs(o: ignore::overrides::Override) -> Seq<(Seq<char>, bool)>;

/// Whether the glob engine accepts a pattern line added under the given
/// case mode: acceptance is decided by the line's text alone (a rejected
/// line is a malformed glob).
pub uninterp spec fn glob_ok(g: Seq<char>, case_insensitive: bool) -> bool;

/// Whether the engine can compile the given pattern program into a
/// matcher: compilation is decided by the added patterns alone.
pub uninterp spec fn build_ok(globs: Seq<(Seq<char>, bool)>) -> bool;

/// The engine's verdict on one path: no pattern applies to it, the
/// highest-precedence matching pattern includes it, or that pattern (or
/// the presence of unmatched inclusion patterns) excludes it. A path
/// whose verdict is `NoMatch` is kept.
#[derive(Clone, Copy, PartialEq, Eq, Structural, Debug)]
pub enum Verdict {
    NoMatch,
    Whitelisted,
    Ignored,
}

/// A failure to compile the filter: a malformed pattern, or a refused
/// builder operation, with the engine's diagnostic.
#[derive(Debug)]
pub struct FilterError {
    pub message: String,
}

/// Relies on `ignore::overrides::OverrideBuilder::new`: a fresh builder,
/// matching relative to the given root directory, holds no patterns and
/// matches case-sensitively.
#[verifier::external_body]
fn ob_new(root: &str) -> (r: ignore::overrides::OverrideBuilder)
    ensures
        ob_globs(r) =~= Seq::<(Seq<char>, bool)>::empty(),
        ob_case(r) == false,
        ob_root(r) == root@,
{
    ignore::overrides::OverrideBuilder::new(root)
}

/// A pattern line the glob engine records verbatim: non-empty, not a
/// comment line (leading `#`), and ending in a printable character so no
/// trailing whitespace is trimmed away.
pub open spec fn plain_pattern(g: Seq<char>) -> bool {
    g.len() > 0 && g[0] != '#' && '!' <= g.last() && g.last() <= '~'
}

/// Whether every pattern of a list is recorded verbatim.
pub open spec fn plain_patterns(globs: Seq<String>) -> bool {
    forall|i: int| 0 <= i < globs.len() ==> plain_pattern(#[trigger] globs[i]@)
}

/// Relies on `ignore::overrides::OverrideBuilder::add`: whether a line is
/// accepted is a function of the line and the current case mode alone; on
/// success the case mode is untouched and a plain pattern is appended
/// verbatim to the builder's patterns under the current case mode (the
/// engine drops comment lines and trims trailing whitespace, so nothing
/// is claimed of other lines' patterns); a malformed glob is reported as
/// an error before anything is recorded.
#[verifier::external_body]
fn ob_add(b: &mut ignore::overrides::OverrideBuilder, glob: &str) -> (r: Result<(), String>)
    ensures
        r is Ok <==> glob_ok(glob@, ob_case(*old(b))),
        r is Ok ==> ob_case(*final(b)) == ob_case(*old(b)),
        r is Ok ==> ob_root(*final(b)) == ob_root(*old(b)),
        (r is Ok && plain_pattern(glob@)) ==> ob_globs(*final(b)) == ob_globs(*old(b)).push(
            (glob@, ob_case(*old(b))),
        ),
        r is Err ==> *final(b) == *old(b),
{
    match b.add(glob) {
        Ok(_) => Ok(()),
        Err(e) => Err(e.to_string()),
    }
}

/// Relies on `ignore::overrides::OverrideBuilder::case_insensitive`: it
/// never fails; the builder's case mode is switched, affecting only
/// patterns added afterwards.
#[verifier::external_body]
fn ob_case_insensitive(b: &mut ignore::overrides::OverrideBuilder, yes: bool) -> (r: Result<
    (),
    String,
>)
    ensures
        r is Ok,
        ob_globs(*final(b)) == ob_globs(*old(b)),
        ob_case(*final(b)) == yes,
        ob_root(*final(b)) == ob_root(*old(b)),
{
    match b.case_insensitive(yes) {
        Ok(_) => Ok(()),
        Err(e) => Err(e.to_string()),
    }
}

/// Relies on `ignore::overrides::OverrideBuilder::build`: whether the
/// added patterns compile is a function of those patterns alone, and a
/// builder with no patterns always compiles; on success the compiled
/// filter holds exactly the patterns added so far.
#[verifier::external_body]
fn ob_build(b: &ignore::overrides::OverrideBuilder) -> (r: Result<
    ignore::overrides::Override,
    String,
>)
    ensures
        r is Ok <==> build_ok(ob_globs(*b)),
        ob_globs(*b).len() == 0 ==> r is Ok,
        r is Ok ==> over_globs(r->Ok_0) == ob_globs(*b),
        r is Ok ==> over_root(r->Ok_0) == ob_root(*b),
{
    match b.build() {
        Ok(o) => Ok(o),
        Err(e) => Err(e.to_string()),
    }
}

/// Relies on `ignore::overrides::Override::matched`: the verdict is a
/// function of the filter's root, its patterns with their case modes,
/// the path and the directory flag alone; with no patterns it is always
/// `NoMatch` (the filter matches everything). The engine's verdict is
/// converted arm for arm.
#[verifier::external_body]
fn over_matched(o: &ignore::overrides::Override, path: &str, is_dir: bool) -> (r: Verdict)
    ensures
        r == verdict_of(over_root(*o), over_globs(*o), path@, is_dir),
        over_globs(*o).len() == 0 ==> r == Verdict::NoMatch,
{
    match o.matched(path, is_dir) {
        ignore::Match::None => Verdict::NoMatch,
        ignore::Match::Whitelist(_) => Verdict::Whitelisted,
        ignore::Match::Ignore(_) => Verdict::Ignored,
    }
}

/// The compiled filter's verdict on one path, taken relative to the
/// filter's root directory. With no patterns the verdict is `NoMatch`
/// for every path: such a filter matches everything.
pub fn matched_verdict(o: &ignore::overrides::Override, path: &str, is_dir: bool) -> (r: Verdict)
    ensures
        r == verdict_of(over_root(*o), over_globs(*o), path@, is_dir),
        over_globs(*o).len() == 0 ==> r == Verdict::NoMatch,
{
    over_matched(o, path, is_dir)
}

/// A glob list tagged with one case-insensitivity mode.
pub open spec fn tagged(globs: Seq<String>, mode: bool) -> Seq<(Seq<char>, bool)> {
    strs(globs).map_values(|g: Seq<char>| (g, mode))
}

impl Context {
    /// The pattern program the override compiler must hand to the glob
    /// engine: the optional `.git` exclusion first, then the plain globs
    /// under the configured case mode, then the always-insensitive globs.
    pub open spec fn filter_plan(self) -> Seq<(Seq<char>, bool)> {
        (if self.ignore_git {
            seq![("!.git"@, false)]
        } else {
            Seq::<(Seq<char>, bool)>::empty()
        }) + tagged(self.glob@, self.glob_case_insensitive) + tagged(self.iglob@, true)
    }

    /// Whether the engine accepts every pattern of a program, each under
    /// its own case mode.
    pub open spec fn plan_accepted(plan: Seq<(Seq<char>, bool)>) -> bool {
        forall|i: int| 0 <= i < plan.len() ==> glob_ok((#[trigger] plan[i]).0, plan[i].1)
    }

    /// Compile the configuration's glob lists and flags into the path
    /// filter, rooted at the configured directory. For pattern lines the
    /// engine records verbatim, the compiled filter holds exactly the
    /// pattern program of [`Context::filter_plan`], and compilation
    /// succeeds exactly when the engine accepts every pattern of that
    /// program and can compile the program; with no exclusion and no
    /// patterns it always succeeds.
    pub fn overrides(&self) -> (r: Result<ignore::overrides::Override, FilterError>)
        ensures
            (r is Ok && plain_patterns(self.glob@) && plain_patterns(self.iglob@))
                ==> over_globs(r->Ok_0) == self.filter_plan(),
            r is Ok ==> over_root(r->Ok_0) == self.dir_spec(),
            (plain_patterns(self.glob@) && plain_patterns(self.iglob@)) ==> (r is Ok <==> (
            Self::plan_accepted(self.filter_plan()) && build_ok(self.filter_plan()))),
            (!self.ignore_git && self.glob@.len() == 0 && self.iglob@.len() == 0) ==> r is Ok,
    {
        let ghost plain = plain_patterns(self.glob@) && plain_patterns(self.iglob@);
        let ghost plan = self.filter_plan();
        let root = self.dir();
        let mut b = ob_new(root.as_str());
        let ghost base: Seq<(Seq<char>, bool)> = if self.ignore_git {
            seq![("!.git"@, false)]
        } else {
            Seq::<(Seq<char>, bool)>::empty()
        };
        if self.ignore_git() {
            proof {
                reveal_strlit("!.git");
                assert(plain_pattern("!.git"@));
            }
            match ob_add(&mut b, "!.git") {
                Ok(_) => {
                    proof {
                        assert(ob_globs(b) =~= base);
                    }
                },
                Err(m) => {
                    proof {
                        assert(plan[0] == ("!.git"@, false));
                        assert(!Self::plan_accepted(plan));
                    }
                    return Err(FilterError { message: m });
                },
            }
        } else {
            proof {
                assert(ob_globs(b) =~= base);
            }
        }
        let ghost git_ok: bool = self.ignore_git ==> glob_ok("!.git"@, false);
        if self.glob.len() == 0 && self.iglob.len() == 0 {
            proof {
                assert(tagged(self.glob@, self.glob_case_insensitive) =~= Seq::<(
                    Seq<char>,
                    bool,
                )>::empty());
                assert(tagged(self.iglob@, true) =~= Seq::<(Seq<char>, bool)>::empty());
                assert(plan =~= base);
            }
            return match ob_build(&b) {
                Ok(o) => {
                    proof {
                        assert forall|idx: int| 0 <= idx < plan.len() implies glob_ok(
                            (#[trigger] plan[idx]).0,
                            plan[idx].1,
                        ) by {
                            assert(plan[idx] == ("!.git"@, false));
                        }
                    }
                    Ok(o)
                },
                Err(m) => Err(FilterError { message: m }),
            };
        }
        if self.glob_case_insensitive() {
            match ob_case_insensitive(&mut b, true) {
                Ok(_) => {},
                Err(m) => {
                    return Err(FilterError { message: m });
                },
            }
        }
        let n: usize = self.glob.len();
        let mut i: usize = 0;
        proof {
            assert(tagged(self.glob@, self.glob_case_insensitive).take(0) =~= Seq::<(
                Seq<char>,
                bool,
            )>::empty());
        }
        while i < n
            invariant
                i <= n == self.glob@.len(),
                ob_case(b) == self.glob_case_insensitive,
                ob_root(b) == self.dir_spec(),
                plain ==> ob_globs(b) == base + tagged(self.glob@, self.glob_case_insensitive).take(
                    i as int,
                ),
                plain == (plain_patterns(self.glob@) && plain_patterns(self.iglob@)),
                plan == self.filter_plan(),
                base == plan_base(*self),
                git_ok == (self.ignore_git ==> glob_ok("!.git"@, false)),
                git_ok,
                forall|j: int|
                    0 <= j < i ==> glob_ok(
                        (#[trigger] self.glob@[j])@,
                        self.glob_case_insensitive,
                    ),
            decreases n - i,
        {
            let ghost pre = ob_globs(b);
            match ob_add(&mut b, self.glob[i].as_str()) {
                Ok(_) => {},
                Err(m) => {
                    proof {
                        let t = tagged(self.glob@, self.glob_case_insensitive);
                        assert(t[i as int] == (self.glob@[i as int]@, self.glob_case_insensitive));
                        assert(plan[base.len() + i as int] == t[i as int]);
                        assert(!Self::plan_accepted(plan));
                    }
                    return Err(FilterError { message: m });
                },
            }
            proof {
                if plain {
                    let t = tagged(self.glob@, self.glob_case_insensitive);
                    assert(plain_pattern(self.glob@[i as int]@));
                    assert(t[i as int] == (self.glob@[i as int]@, self.glob_case_insensitive));
                    assert(base + t.take(i as int + 1) =~= pre.push(t[i as int]));
                }
            }
            i += 1;
        }
        proof {
            if plain {
                let t = tagged(self.glob@, self.glob_case_insensitive);
                assert(t.take(n as int) =~= t);
            }
        }
        match ob_case_insensitive(&mut b, true) {
            Ok(_) => {},
            Err(m) => {
                return Err(FilterError { message: m });
            },
        }
        let ghost mid = base + tagged(self.glob@, self.glob_case_insensitive);
        let nig: usize = self.iglob.len();
        let mut k: usize = 0;
        proof {
            if plain {
                assert(ob_globs(b) =~= mid + tagged(self.iglob@, true).take(0));
            }
        }
        while k < nig
            invariant
                k <= nig == self.iglob@.len(),
                n == self.glob@.len(),
                ob_case(b) == true,
                ob_root(b) == self.dir_spec(),
                plain ==> ob_globs(b) == mid + tagged(self.iglob@, true).take(k as int),
                plain == (plain_patterns(self.glob@) && plain_patterns(self.iglob@)),
                plan == self.filter_plan(),
                base == plan_base(*self),
                mid == base + tagged(self.glob@, self.glob_case_insensitive),
                git_ok == (self.ignore_git ==> glob_ok("!.git"@, false)),
                git_ok,
                forall|j: int|
                    0 <= j < n ==> glob_ok(
                        (#[trigger] self.glob@[j])@,
                        self.glob_case_insensitive,
                    ),
                forall|j: int| 0 <= j < k ==> glob_ok((#[trigger] self.iglob@[j])@, true),
            decreases nig - k,
        {
            let ghost pre = ob_globs(b);
            match ob_add(&mut b, self.iglob[k].as_str()) {
                Ok(_) => {},
                Err(m) => {
                    proof {
                        let t = tagged(self.iglob@, true);
                        assert(t[k as int] == (self.iglob@[k as int]@, true));
                        assert(plan[mid.len() + k as int] == t[k as int]);
                        assert(!Self::plan_accepted(plan));
                    }
                    return Err(FilterError { message: m });
                },
            }
            proof {
                if plain {
                    let t = tagged(self.iglob@, true);
                    assert(plain_pattern(self.iglob@[k as int]@));
                    assert(t[k as int] == (self.iglob@[k as int]@, true));
                    assert(mid + t.take(k as int + 1) =~= pre.push(t[k as int]));
                }
            }
            k += 1;
        }
        proof {
            if plain {
                let t = tagged(self.iglob@, true);
                assert(t.take(nig as int) =~= t);
                assert(mid + t =~= plan);
            }
            assert forall|idx: int| 0 <= idx < plan.len() implies glob_ok(
                (#[trigger] plan[idx]).0,
                plan[idx].1,
            ) by {
                let t1 = tagged(self.glob@, self.glob_case_insensitive);
                let t2 = tagged(self.iglob@, true);
                if idx < base.len() {
                    assert(plan[idx] == ("!.git"@, false));
                } else if idx < base.len() + t1.len() {
                    assert(plan[idx] == t1[idx - base.len()]);
                    assert(t1[idx - base.len()] == (
                        self.glob@[idx - base.len()]@,
                        self.glob_case_insensitive,
                    ));
                } else {
                    assert(plan[idx] == t2[idx - base.len() - t1.len()]);
                    assert(t2[idx - base.len() - t1.len()] == (
                        self.iglob@[idx - base.len() - t1.len()]@,
                        true,
                    ));
                }
            }
        }
        match ob_build(&b) {
            Ok(o) => Ok(o),
            Err(m) => Err(FilterError { message: m }),
        }
    }
}

/// The leading `.git` exclusion of a configuration's pattern program.
pub open spec fn plan_base(c: Context) -> Seq<(Seq<char>, bool)> {
    if c.ignore_git {
        seq![("!.git"@, false)]
    } else {
        Seq::<(Seq<char>, bool)>::empty()
    }
}

} // verus!
