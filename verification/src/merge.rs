//! The precedence merger: reconciles a command-line parsed argument set and
//! a configuration-file parsed argument set into one canonical token
//! sequence, which is then re-parsed by the token parser.
//!
//! The rules, in order, for every identifier of the deduplicated union of
//! the two sets' identifier lists:
//! - the schema's synthetic root identifier is skipped;
//! - a raw command-line value for the positional directory identifier is
//!   copied verbatim, and the configuration value for it never considered;
//! - otherwise the command-line value wins when it was explicitly written
//!   on the command line, and the configuration value is taken otherwise;
//! - a chosen raw value equal to `false` is omitted entirely, one equal to
//!   `true` is rendered as the bare long-form flag, and any other value is
//!   rendered as the long-form flag followed by the value token.

use vstd::prelude::*;
use vstd::string::StringExecFns;

use crate::args::ParsedSet;
use crate::cli::{po_explicit, po_ids, po_raw, ParseOutcome};
use crate::text::{contains_str, long_flag, make_long_flag, str_lit_eq, strs};

verus! {

/// One deduplication step: append the identifier unless it was seen.
pub open spec fn uniq_step(acc: Seq<Seq<char>>, id: Seq<char>) -> Seq<Seq<char>> {
    if acc.contains(id) {
        acc
    } else {
        acc.push(id)
    }
}

pub open spec fn uniq_acc(ids: Seq<Seq<char>>, acc: Seq<Seq<char>>) -> Seq<Seq<char>>
    decreases ids.len(),
{
    if ids.len() == 0 {
        acc
    } else {
        uniq_acc(ids.drop_first(), uniq_step(acc, ids.first()))
    }
}

/// Deduplicate an identifier list, keeping the first occurrence of each
/// identifier and preserving first-seen order.
pub open spec fn uniq_ids(ids: Seq<Seq<char>>) -> Seq<Seq<char>> {
    uniq_acc(ids, Seq::empty())
}

proof fn lemma_uniq_acc_nodup(ids: Seq<Seq<char>>, acc: Seq<Seq<char>>)
    requires
        acc.no_duplicates(),
    ensures
        uniq_acc(ids, acc).no_duplicates(),
    decreases ids.len(),
{
    if ids.len() > 0 {
        let x = ids.first();
        if !acc.contains(x) {
            assert forall|i: int, j: int|
                0 <= i < acc.push(x).len() && 0 <= j < acc.push(x).len() && i != j implies acc.push(
                x,
            )[i] != acc.push(x)[j] by {
                if i < acc.len() && j < acc.len() {
                } else if i == acc.len() {
                    assert(acc.push(x)[j] == acc[j]);
                    assert(!acc.contains(x));
                } else {
                    assert(acc.push(x)[i] == acc[i]);
                    assert(!acc.contains(x));
                }
            }
        }
        lemma_uniq_acc_nodup(ids.drop_first(), uniq_step(acc, x));
    }
}

proof fn lemma_uniq_acc_fresh(ids: Seq<Seq<char>>, acc: Seq<Seq<char>>)
    requires
        ids.no_duplicates(),
        forall|i: int| 0 <= i < ids.len() ==> !acc.contains(#[trigger] ids[i]),
    ensures
        uniq_acc(ids, acc) == acc + ids,
    decreases ids.len(),
{
    if ids.len() == 0 {
        assert(uniq_acc(ids, acc) =~= acc + ids);
    } else {
        let x = ids.first();
        assert(ids[0] == x);
        assert(!acc.contains(x));
        let acc2 = acc.push(x);
        let rest = ids.drop_first();
        assert forall|i: int| 0 <= i < rest.len() implies !acc2.contains(#[trigger] rest[i]) by {
            assert(rest[i] == ids[i + 1]);
            assert(ids[i + 1] != x);
            if acc2.contains(rest[i]) {
                let w = choose|w: int| 0 <= w < acc2.len() && acc2[w] == rest[i];
                if w < acc.len() {
                    assert(acc.contains(rest[i]));
                } else {
                    assert(acc2[w] == x);
                }
            }
        }
        lemma_uniq_acc_fresh(rest, acc2);
        assert(uniq_acc(ids, acc) == acc2 + rest);
        assert(acc2 + rest =~= acc + ids);
    }
}

/// The deduplication pass produces a duplicate-free list.
pub proof fn lemma_uniq_no_duplicates(ids: Seq<Seq<char>>)
    ensures
        uniq_ids(ids).no_duplicates(),
{
    lemma_uniq_acc_nodup(ids, Seq::empty());
}

proof fn lemma_uniq_acc_contains(ids: Seq<Seq<char>>, acc: Seq<Seq<char>>, x: Seq<char>)
    ensures
        uniq_acc(ids, acc).contains(x) <==> (ids.contains(x) || acc.contains(x)),
    decreases ids.len(),
{
    broadcast use vstd::seq_lib::lemma_seq_contains_after_push;

    if ids.len() > 0 {
        let h = ids.first();
        let acc2 = uniq_step(acc, h);
        lemma_uniq_acc_contains(ids.drop_first(), acc2, x);
        assert(acc2.contains(x) <==> (x == h || acc.contains(x))) by {
            if acc.contains(h) && x == h {
                assert(acc2.contains(x));
            }
        }
        assert(ids.contains(x) <==> (x == h || ids.drop_first().contains(x))) by {
            assert(ids[0] == h);
            if ids.contains(x) {
                let w = choose|w: int| 0 <= w < ids.len() && ids[w] == x;
                if w > 0 {
                    assert(ids.drop_first()[w - 1] == x);
                    assert(ids.drop_first().contains(x));
                }
            }
            if ids.drop_first().contains(x) {
                let w = choose|w: int|
                    0 <= w < ids.drop_first().len() && ids.drop_first()[w] == x;
                assert(ids[w + 1] == x);
                assert(ids.contains(x));
            }
        }
    }
}

/// The deduplicated union holds an identifier if and only if the input
/// list holds it.
pub proof fn lemma_uniq_same_identifiers(ids: Seq<Seq<char>>, x: Seq<char>)
    ensures
        uniq_ids(ids).contains(x) <==> ids.contains(x),
{
    lemma_uniq_acc_contains(ids, Seq::empty(), x);
}

/// Deduplication is idempotent: running the pass on its own output yields
/// the same identifier order again.
pub proof fn lemma_uniq_idempotent(ids: Seq<Seq<char>>)
    ensures
        uniq_ids(uniq_ids(ids)) == uniq_ids(ids),
{
    let u = uniq_ids(ids);
    lemma_uniq_no_duplicates(ids);
    lemma_uniq_acc_fresh(u, Seq::empty());
    assert(Seq::empty() + u =~= u);
}

/// Deduplicate a list of identifiers, keeping first occurrences in order.
pub fn uniq(ids: &Vec<String>) -> (r: Vec<String>)
    ensures
        strs(r@) == uniq_ids(strs(ids@)),
{
    let n: usize = ids.len();
    let mut out: Vec<String> = Vec::new();
    let mut i: usize = 0;
    proof {
        assert(strs(ids@).skip(0) =~= strs(ids@));
        assert(strs(out@) =~= Seq::<Seq<char>>::empty());
    }
    while i < n
        invariant
            i <= n == ids@.len(),
            uniq_acc(strs(ids@).skip(i as int), strs(out@)) == uniq_ids(strs(ids@)),
        decreases n - i,
    {
        let ghost pre = strs(out@);
        let ghost tail = strs(ids@).skip(i as int);
        proof {
            assert(tail.first() == strs(ids@)[i as int]);
            assert(tail.drop_first() =~= strs(ids@).skip(i as int + 1));
        }
        if !contains_str(&out, &ids[i]) {
            out.push(ids[i].clone());
            proof {
                assert(strs(out@) =~= pre.push(strs(ids@)[i as int]));
            }
        }
        proof {
            assert(strs(out@) =~= uniq_step(pre, strs(ids@)[i as int]));
        }
        i += 1;
    }
    proof {
        assert(strs(ids@).skip(n as int) =~= Seq::<Seq<char>>::empty());
    }
    out
}

/// How one chosen raw value is rendered behind its long-form flag token: a
/// boolean `false` becomes absence, a boolean `true` becomes the bare flag,
/// and anything else becomes the flag followed by the value.
pub open spec fn render_value(flag: Seq<char>, v: Seq<char>) -> Seq<Seq<char>> {
    if v == "false"@ {
        Seq::empty()
    } else if v == "true"@ {
        seq![flag]
    } else {
        seq![flag, v]
    }
}

/// The rendering of all raw values recorded for one identifier.
pub open spec fn render_values(id: Seq<char>, vs: Seq<Seq<char>>) -> Seq<Seq<char>>
    decreases vs.len(),
{
    if vs.len() == 0 {
        Seq::empty()
    } else {
        render_values(id, vs.drop_last()) + render_value(long_flag(id), vs.last())
    }
}

/// A raw boolean value of `true` always reconstructs to the bare flag
/// token, and `false` always reconstructs to the flag's absence.
pub proof fn lemma_bool_value_render(flag: Seq<char>, v: Seq<char>)
    ensures
        v == "true"@ ==> render_value(flag, v) == seq![flag],
        v == "false"@ ==> render_value(flag, v) == Seq::<Seq<char>>::empty(),
{
    reveal_strlit("true");
    reveal_strlit("false");
    assert("true"@.len() == 4);
    assert("false"@.len() == 5);
}

/// The canonical tokens contributed by one identifier of the union.
pub open spec fn segment(cmd: ParsedSet, cfg: ParsedSet, id: Seq<char>) -> Seq<Seq<char>> {
    if id == "Context"@ {
        Seq::empty()
    } else if id == "dir"@ && cmd.raw_of(id) is Some {
        cmd.raw_of(id)->0
    } else if cmd.explicit(id) {
        match cmd.raw_of(id) {
            Some(vs) => render_values(id, vs),
            None => Seq::empty(),
        }
    } else {
        match cfg.raw_of(id) {
            Some(vs) => render_values(id, vs),
            None => Seq::empty(),
        }
    }
}

pub open spec fn segments(cmd: ParsedSet, cfg: ParsedSet, ids: Seq<Seq<char>>) -> Seq<Seq<char>>
    decreases ids.len(),
{
    if ids.len() == 0 {
        Seq::empty()
    } else {
        segments(cmd, cfg, ids.drop_last()) + segment(cmd, cfg, ids.last())
    }
}

/// The full canonical token sequence of the merge: the sentinel token that
/// stands for the program name, then the contribution of every identifier
/// of the deduplicated union, command-line identifiers first.
pub open spec fn merged_tokens(cmd: ParsedSet, cfg: ParsedSet) -> Seq<Seq<char>> {
    seq!["--"@] + segments(cmd, cfg, uniq_ids(cmd.ids_spec() + cfg.ids_spec()))
}

/// Precedence: for an option other than the positional directory and the
/// synthetic root, an explicitly command-line-supplied value decides the
/// merged tokens, whatever either configuration set contains.
pub proof fn lemma_command_line_precedence(
    cmd: ParsedSet,
    cfg1: ParsedSet,
    cfg2: ParsedSet,
    id: Seq<char>,
)
    requires
        id != "dir"@,
        id != "Context"@,
        cmd.explicit(id),
    ensures
        segment(cmd, cfg1, id) == segment(cmd, cfg2, id),
        segment(cmd, cfg1, id) == (match cmd.raw_of(id) {
            Some(vs) => render_values(id, vs),
            None => Seq::<Seq<char>>::empty(),
        }),
{
}

/// Config fallback: an option the command line did not explicitly supply
/// (and, for the positional directory, carries no raw value for) takes the
/// configuration set's value.
pub proof fn lemma_config_fallback(cmd: ParsedSet, cfg: ParsedSet, id: Seq<char>)
    requires
        id != "Context"@,
        !cmd.explicit(id),
        id == "dir"@ ==> cmd.raw_of(id) is None,
        cfg.raw_of(id) is Some,
    ensures
        segment(cmd, cfg, id) == render_values(id, cfg.raw_of(id)->0),
{
}

/// Directory special case: any raw command-line value for the positional
/// directory is copied verbatim, and the configuration sets' values for it
/// are never considered.
pub proof fn lemma_dir_special_case(cmd: ParsedSet, cfg1: ParsedSet, cfg2: ParsedSet)
    requires
        cmd.raw_of("dir"@) is Some,
    ensures
        segment(cmd, cfg1, "dir"@) == cmd.raw_of("dir"@)->0,
        segment(cmd, cfg1, "dir"@) == segment(cmd, cfg2, "dir"@),
{
    reveal_strlit("dir");
    reveal_strlit("Context");
    assert("dir"@.len() == 3);
    assert("Context"@.len() == 7);
}

/// The tokens one identifier contributes, read off a pair of parse
/// outcomes instead of parsed argument sets.
pub open spec fn outcome_segment(upo: ParseOutcome, cpo: ParseOutcome, id: Seq<char>) -> Seq<
    Seq<char>,
> {
    if id == "Context"@ {
        Seq::empty()
    } else if id == "dir"@ && po_raw(upo, id) is Some {
        po_raw(upo, id)->0
    } else if po_explicit(upo, id) {
        match po_raw(upo, id) {
            Some(vs) => render_values(id, vs),
            None => Seq::empty(),
        }
    } else {
        match po_raw(cpo, id) {
            Some(vs) => render_values(id, vs),
            None => Seq::empty(),
        }
    }
}

pub open spec fn outcome_segments(
    upo: ParseOutcome,
    cpo: ParseOutcome,
    ids: Seq<Seq<char>>,
) -> Seq<Seq<char>>
    decreases ids.len(),
{
    if ids.len() == 0 {
        Seq::empty()
    } else {
        outcome_segments(upo, cpo, ids.drop_last()) + outcome_segment(upo, cpo, ids.last())
    }
}

/// The canonical token sequence of the merge, read off the two parse
/// outcomes.
pub open spec fn merged_of_outcomes(upo: ParseOutcome, cpo: ParseOutcome) -> Seq<Seq<char>> {
    seq!["--"@] + outcome_segments(upo, cpo, uniq_ids(po_ids(upo) + po_ids(cpo)))
}

proof fn lemma_segments_agree(
    u: ParsedSet,
    c: ParsedSet,
    upo: ParseOutcome,
    cpo: ParseOutcome,
    ids: Seq<Seq<char>>,
)
    requires
        forall|id: Seq<char>| #[trigger] u.raw_of(id) == po_raw(upo, id),
        forall|id: Seq<char>| #[trigger] u.explicit(id) == po_explicit(upo, id),
        forall|id: Seq<char>| #[trigger] c.raw_of(id) == po_raw(cpo, id),
        forall|id: Seq<char>| #[trigger] c.explicit(id) == po_explicit(cpo, id),
    ensures
        segments(u, c, ids) == outcome_segments(upo, cpo, ids),
    decreases ids.len(),
{
    if ids.len() > 0 {
        lemma_segments_agree(u, c, upo, cpo, ids.drop_last());
        assert(segment(u, c, ids.last()) == outcome_segment(upo, cpo, ids.last()));
    }
}

/// Two argument sets that observe, identifier for identifier, what two
/// parse outcomes record merge to the same canonical token sequence as
/// the outcomes themselves.
pub proof fn lemma_merge_agrees(
    u: ParsedSet,
    c: ParsedSet,
    upo: ParseOutcome,
    cpo: ParseOutcome,
)
    requires
        u.ids_spec() == po_ids(upo),
        c.ids_spec() == po_ids(cpo),
        forall|id: Seq<char>| #[trigger] u.raw_of(id) == po_raw(upo, id),
        forall|id: Seq<char>| #[trigger] u.explicit(id) == po_explicit(upo, id),
        forall|id: Seq<char>| #[trigger] c.raw_of(id) == po_raw(cpo, id),
        forall|id: Seq<char>| #[trigger] c.explicit(id) == po_explicit(cpo, id),
    ensures
        merged_tokens(u, c) == merged_of_outcomes(upo, cpo),
{
    lemma_segments_agree(u, c, upo, cpo, uniq_ids(u.ids_spec() + c.ids_spec()));
}

/// Append the rendering of one identifier's raw values to the token list.
fn render_push(id: &String, vs: &Vec<String>, out: &mut Vec<String>)
    ensures
        strs(final(out)@) == strs(old(out)@) + render_values(id@, strs(vs@)),
{
    let flag = make_long_flag(id.as_str());
    let n: usize = vs.len();
    let mut j: usize = 0;
    proof {
        assert(strs(vs@).take(0) =~= Seq::<Seq<char>>::empty());
        assert(strs(out@) =~= strs(old(out)@) + render_values(id@, strs(vs@).take(0)));
    }
    while j < n
        invariant
            j <= n == vs@.len(),
            flag@ == long_flag(id@),
            strs(out@) == strs(old(out)@) + render_values(id@, strs(vs@).take(j as int)),
        decreases n - j,
    {
        let ghost pre = strs(out@);
        let v = &vs[j];
        if !str_lit_eq(v, "false") {
            out.push(flag.clone());
            if !str_lit_eq(v, "true") {
                out.push(v.clone());
                proof {
                    assert(strs(out@) =~= pre + seq![flag@, v@]);
                }
            } else {
                proof {
                    assert(strs(out@) =~= pre + seq![flag@]);
                }
            }
        } else {
            proof {
                assert(strs(out@) =~= pre + Seq::<Seq<char>>::empty());
            }
        }
        proof {
            let t = strs(vs@).take(j as int + 1);
            assert(t.drop_last() =~= strs(vs@).take(j as int));
            assert(t.last() == strs(vs@)[j as int]);
            assert(strs(vs@)[j as int] == v@);
            assert(strs(out@) =~= strs(old(out)@) + render_values(id@, t));
        }
        j += 1;
    }
    proof {
        assert(strs(vs@).take(n as int) =~= strs(vs@));
    }
}

/// Merge the two parsed argument sets into the canonical token sequence.
pub fn merge_tokens(cmd: &ParsedSet, cfg: &ParsedSet) -> (r: Vec<String>)
    ensures
        strs(r@) == merged_tokens(*cmd, *cfg),
{
    let mut ids: Vec<String> = Vec::new();
    let ncmd: usize = cmd.entries.len();
    let mut i: usize = 0;
    while i < ncmd
        invariant
            i <= ncmd == cmd.entries@.len(),
            strs(ids@) == cmd.ids_spec().take(i as int),
        decreases ncmd - i,
    {
        let ghost pre_ids = ids@;
        ids.push(cmd.entries[i].id.clone());
        proof {
            crate::text::lemma_strs_push(pre_ids, cmd.entries@[i as int].id);
            assert(strs(ids@) =~= cmd.ids_spec().take(i as int + 1));
        }
        i += 1;
    }
    let ncfg: usize = cfg.entries.len();
    let mut k: usize = 0;
    proof {
        assert(cmd.ids_spec().take(ncmd as int) =~= cmd.ids_spec());
        assert(strs(ids@) =~= cmd.ids_spec() + cfg.ids_spec().take(0));
    }
    while k < ncfg
        invariant
            k <= ncfg == cfg.entries@.len(),
            strs(ids@) == cmd.ids_spec() + cfg.ids_spec().take(k as int),
        decreases ncfg - k,
    {
        let ghost pre_ids = ids@;
        ids.push(cfg.entries[k].id.clone());
        proof {
            crate::text::lemma_strs_push(pre_ids, cfg.entries@[k as int].id);
            assert(strs(ids@) =~= cmd.ids_spec() + cfg.ids_spec().take(k as int + 1));
        }
        k += 1;
    }
    proof {
        assert(cfg.ids_spec().take(ncfg as int) =~= cfg.ids_spec());
    }
    let u = uniq(&ids);
    let ghost union = uniq_ids(cmd.ids_spec() + cfg.ids_spec());
    let mut out: Vec<String> = Vec::new();
    out.push(String::from_str("--"));
    let nu: usize = u.len();
    let mut m: usize = 0;
    proof {
        assert(strs(u@).take(0) =~= Seq::<Seq<char>>::empty());
        assert(strs(out@) =~= seq!["--"@] + segments(*cmd, *cfg, strs(u@).take(0)));
    }
    while m < nu
        invariant
            m <= nu == u@.len(),
            strs(u@) == union,
            strs(out@) == seq!["--"@] + segments(*cmd, *cfg, strs(u@).take(m as int)),
        decreases nu - m,
    {
        let ghost pre = strs(out@);
        let id = &u[m];
        let mut handled = false;
        if str_lit_eq(id, "Context") {
            handled = true;
            proof {
                assert(strs(out@) =~= pre + segment(*cmd, *cfg, id@));
            }
        }
        if !handled && str_lit_eq(id, "dir") {
            if let Some(e) = cmd.find(id.as_str()) {
                if let Some(raw) = &e.raw {
                    let nraw: usize = raw.len();
                    let mut t: usize = 0;
                    while t < nraw
                        invariant
                            t <= nraw == raw@.len(),
                            strs(out@) == pre + strs(raw@).take(t as int),
                        decreases nraw - t,
                    {
                        let ghost pre_out = out@;
                        out.push(raw[t].clone());
                        proof {
                            crate::text::lemma_strs_push(pre_out, raw@[t as int]);
                            assert(strs(out@) =~= pre + strs(raw@).take(t as int + 1));
                        }
                        t += 1;
                    }
                    handled = true;
                    proof {
                        assert(strs(raw@).take(nraw as int) =~= strs(raw@));
                        assert(cmd.raw_of(id@) == Some(strs(raw@)));
                        assert(strs(out@) =~= pre + segment(*cmd, *cfg, id@));
                    }
                }
            }
        }
        if !handled {
            proof {
                reveal_strlit("dir");
                reveal_strlit("Context");
            }
            let explicit = match cmd.find(id.as_str()) {
                Some(e) => e.explicit,
                None => false,
            };
            let chosen: Option<&Vec<String>> = if explicit {
                match cmd.find(id.as_str()) {
                    Some(e) => e.raw.as_ref(),
                    None => None,
                }
            } else {
                match cfg.find(id.as_str()) {
                    Some(e) => e.raw.as_ref(),
                    None => None,
                }
            };
            match chosen {
                Some(vs) => {
                    render_push(id, vs, &mut out);
                },
                None => {},
            }
            proof {
                assert(strs(out@) =~= pre + segment(*cmd, *cfg, id@));
            }
        }
        proof {
            let t = strs(u@).take(m as int + 1);
            assert(t.drop_last() =~= strs(u@).take(m as int));
            assert(t.last() == id@);
            assert(strs(out@) =~= seq!["--"@] + segments(*cmd, *cfg, t));
        }
        m += 1;
    }
    proof {
        assert(strs(u@).take(nu as int) =~= strs(u@));
    }
    out
}

} // verus!
