//! The instantiation engine's mathematical model.
//!
//! One symbol resolves in a fixed order of passes over the chosen candidate
//! fragment: inline gender markers are read and removed, `{{fresh}}`
//! references are expanded against a fresh run, `{memoized}` references are
//! expanded against the run's memo, then median-point and slash gender forms
//! are rewritten under the governing gender.  A recursion stack rejects
//! cyclic dependencies; a fuel bound rejects fresh re-instantiations nested
//! beyond any depth a finite acyclic table can need.
//!
//! Everything here is specification: the executable resolver in
//! [`crate::resolver`] is proved to return exactly what these functions
//! denote, so one seed pins a whole expansion.

use vstd::prelude::*;

use crate::chars::spec_part;
use crate::chars::part_run_end;
use crate::chars::word_run_end;
use crate::chars::median;
use crate::gender::Gender;
use crate::gender::spec_gender_char;
use crate::gender::spec_gender_of;
use crate::table::RuleV;
use crate::table::ResolvedV;
use crate::table::table_find;
use crate::errors::SpecErr;
use crate::rng::next_state;
use crate::rng::spec_below;

verus! {

/// The table a run reads: named rules, later bindings shadowing earlier.
pub type TableV = Seq<(Seq<char>, RuleV)>;

/// The memo of a run: resolved values by symbol name.
pub type MemoV = Map<Seq<char>, ResolvedV>;

/// The inline gender marker (`[m]`, `[f]`, `[n]`, either case) that starts
/// at `i`, if any.
pub open spec fn marker_at(s: Seq<char>, i: int) -> Option<Gender> {
    if 0 <= i && i + 2 < s.len() && s[i] == '[' && spec_gender_char(s[i + 1]) && s[i + 2] == ']' {
        Some(spec_gender_of(s[i + 1]))
    } else {
        None
    }
}

/// How many inline gender markers a left-to-right scan from `i` finds.
pub open spec fn count_markers(s: Seq<char>, i: int) -> nat
    decreases s.len() - i,
{
    if !(0 <= i < s.len()) {
        0
    } else if marker_at(s, i) is Some {
        count_markers(s, i + 3) + 1
    } else {
        count_markers(s, i + 1)
    }
}

/// The gender the first inline marker declares (`Neutral` when none).
pub open spec fn first_marker(s: Seq<char>, i: int) -> Gender
    decreases s.len() - i,
{
    if !(0 <= i < s.len()) {
        Gender::Neutral
    } else {
        match marker_at(s, i) {
            Some(g) => g,
            None => first_marker(s, i + 1),
        }
    }
}

/// The fragment with every inline gender marker removed.
pub open spec fn strip_markers(s: Seq<char>, i: int) -> Seq<char>
    decreases s.len() - i,
{
    if !(0 <= i < s.len()) {
        Seq::empty()
    } else if marker_at(s, i) is Some {
        strip_markers(s, i + 3)
    } else {
        seq![s[i]] + strip_markers(s, i + 1)
    }
}

/// The memoized reference `{name}` that starts at `i`, if any: its name and
/// the position just past it.
pub open spec fn memo_ref_at(s: Seq<char>, i: int) -> Option<(Seq<char>, int)> {
    if 0 <= i < s.len() && s[i] == '{' {
        let e = word_run_end(s, i + 1);
        if e < s.len() && s[e] == '}' {
            Some((s.subrange(i + 1, e), e + 1))
        } else {
            None
        }
    } else {
        None
    }
}

/// The fresh reference `{{name}}` that starts at `i`, if any.
pub open spec fn fresh_ref_at(s: Seq<char>, i: int) -> Option<(Seq<char>, int)> {
    if 0 <= i && i + 1 < s.len() && s[i] == '{' && s[i + 1] == '{' {
        let e = word_run_end(s, i + 2);
        if e + 1 < s.len() && s[e] == '}' && s[e + 1] == '}' {
            Some((s.subrange(i + 2, e), e + 2))
        } else {
            None
        }
    } else {
        None
    }
}

/// A matched median-point gender form: the joined parts, the optional
/// dependency override, and the position just past the match.
pub struct DotsMatch {
    pub root: Seq<char>,
    pub p2: Seq<char>,
    pub p3: Option<Seq<char>>,
    pub p4: Option<Seq<char>>,
    pub dep: Option<Seq<char>>,
    pub end: int,
}

/// The optional `[dependency]` tail of a median-point form (part characters,
/// at least one).
pub open spec fn dots_tail(
    s: Seq<char>,
    root: Seq<char>,
    p2: Seq<char>,
    p3: Option<Seq<char>>,
    p4: Option<Seq<char>>,
    pos: int,
) -> DotsMatch {
    if pos < s.len() && s[pos] == '[' {
        let rd = part_run_end(s, pos + 1);
        if rd > pos + 1 && rd < s.len() && s[rd] == ']' {
            DotsMatch { root, p2, p3, p4, dep: Some(s.subrange(pos + 1, rd)), end: rd + 1 }
        } else {
            DotsMatch { root, p2, p3, p4, dep: None, end: pos }
        }
    } else {
        DotsMatch { root, p2, p3, p4, dep: None, end: pos }
    }
}

/// The median-point gender form that starts at `i`, if any: a non-empty run
/// of part characters, a median point, and one to three further runs.
pub open spec fn dots_at(s: Seq<char>, i: int) -> Option<DotsMatch> {
    if 0 <= i < s.len() && spec_part(s[i]) {
        let r1 = part_run_end(s, i);
        if r1 < s.len() && s[r1] == median() {
            let r2 = part_run_end(s, r1 + 1);
            let root = s.subrange(i, r1);
            let p2 = s.subrange(r1 + 1, r2);
            if r2 < s.len() && s[r2] == median() {
                let r3 = part_run_end(s, r2 + 1);
                let p3 = s.subrange(r2 + 1, r3);
                if r3 < s.len() && s[r3] == median() {
                    let r4 = part_run_end(s, r3 + 1);
                    Some(dots_tail(s, root, p2, Some(p3), Some(s.subrange(r3 + 1, r4)), r4))
                } else {
                    Some(dots_tail(s, root, p2, Some(p3), None, r3))
                }
            } else {
                Some(dots_tail(s, root, p2, None, None, r2))
            }
        } else {
            None
        }
    } else {
        None
    }
}

/// What a median-point form becomes under a governing gender.  With two
/// parts the masculine form is the bare root; with three the second and
/// third parts are the masculine and feminine endings; a fourth part is a
/// shared tail.  Under `Neutral` both forms are emitted joined by `/`.
pub open spec fn dots_replacement(m: DotsMatch, g: Gender) -> Seq<char> {
    match (m.p3, m.p4) {
        (None, _) => match g {
            Gender::Male => m.root,
            Gender::Female => m.root + m.p2,
            Gender::Neutral => m.root + seq!['/'] + m.root + m.p2,
        },
        (Some(p3), None) => match g {
            Gender::Male => m.root + m.p2,
            Gender::Female => m.root + p3,
            Gender::Neutral => m.root + m.p2 + seq!['/'] + m.root + p3,
        },
        (Some(p3), Some(p4)) => match g {
            Gender::Male => m.root + m.p2 + p4,
            Gender::Female => m.root + p3 + p4,
            Gender::Neutral => m.root + m.p2 + p4 + seq!['/'] + m.root + p3 + p4,
        },
    }
}

/// A matched slash gender form `male/female[/neutral][[dep]]`.
pub struct SlashMatch {
    pub m: Seq<char>,
    pub f: Seq<char>,
    pub n: Option<Seq<char>>,
    pub dep: Option<Seq<char>>,
    pub end: int,
}

/// The optional `[dependency]` tail of a slash form (word characters, at
/// least one).
pub open spec fn slash_tail(
    s: Seq<char>,
    m: Seq<char>,
    f: Seq<char>,
    n: Option<Seq<char>>,
    pos: int,
) -> SlashMatch {
    if pos < s.len() && s[pos] == '[' {
        let rd = word_run_end(s, pos + 1);
        if rd > pos + 1 && rd < s.len() && s[rd] == ']' {
            SlashMatch { m, f, n, dep: Some(s.subrange(pos + 1, rd)), end: rd + 1 }
        } else {
            SlashMatch { m, f, n, dep: None, end: pos }
        }
    } else {
        SlashMatch { m, f, n, dep: None, end: pos }
    }
}

/// The slash gender form that starts at `i`, if any.  Either branch may be
/// empty.
pub open spec fn slash_at(s: Seq<char>, i: int) -> Option<SlashMatch> {
    if 0 <= i < s.len() {
        let r1 = part_run_end(s, i);
        if r1 < s.len() && s[r1] == '/' {
            let r2 = part_run_end(s, r1 + 1);
            let m = s.subrange(i, r1);
            let f = s.subrange(r1 + 1, r2);
            if r2 < s.len() && s[r2] == '/' {
                let r3 = part_run_end(s, r2 + 1);
                Some(slash_tail(s, m, f, Some(s.subrange(r2 + 1, r3)), r3))
            } else {
                Some(slash_tail(s, m, f, None, r2))
            }
        } else {
            None
        }
    } else {
        None
    }
}

/// What a slash form becomes under a governing gender.  Under `Neutral`
/// with no explicit third branch the `male/female` pair is reconstructed
/// verbatim: no distinct neutral form was authored.
pub open spec fn slash_replacement(m: SlashMatch, g: Gender) -> Seq<char> {
    match g {
        Gender::Male => m.m,
        Gender::Female => m.f,
        Gender::Neutral => match m.n {
            Some(n) => n,
            None => m.m + seq!['/'] + m.f,
        },
    }
}

/// The recursion budget of one run: more than any chain of distinct symbols
/// the table can hold.
pub open spec fn run_budget(t: TableV) -> nat {
    if t.len() < 0xFFFFFFFF {
        t.len() + 2
    } else {
        0xFFFFFFFF as nat
    }
}

/// Resolves one symbol: the memo hit, the cycle check, the candidate draw,
/// the marker scan and the five rewrite passes, ending with the memo
/// insertion.  Returns the resolved text, the memo after the run, and the
/// generator state after the run.
pub open spec fn spec_resolve(
    t: TableV,
    pre: MemoV,
    sym: Seq<char>,
    memo: MemoV,
    stack: Seq<Seq<char>>,
    rng: u64,
    fuel: nat,
    rf: nat,
) -> Result<(Seq<char>, MemoV, u64), SpecErr>
    decreases fuel, rf, 0int, 0int,
{
    if memo.contains_key(sym) {
        Ok((memo[sym].content, memo, rng))
    } else if stack.contains(sym) {
        Err(SpecErr::Cyclic(sym))
    } else if rf == 0 {
        Err(SpecErr::TooDeep(sym))
    } else {
        match table_find(t, sym) {
            None => Err(SpecErr::UnknownSymbol(sym)),
            Some(rule) => {
                let stack2 = stack.push(sym);
                let cand = if rule.cands.len() == 0 {
                    Seq::<char>::empty()
                } else {
                    rule.cands[spec_below(rng, rule.cands.len() as int)]
                };
                let rng1 = if rule.cands.len() == 0 {
                    rng
                } else {
                    next_state(rng)
                };
                if count_markers(cand, 0) >= 2 {
                    Err(SpecErr::MultiMarker(sym, cand))
                } else {
                    let gender = if count_markers(cand, 0) == 1 {
                        first_marker(cand, 0)
                    } else {
                        Gender::Neutral
                    };
                    let stripped = strip_markers(cand, 0);
                    match spec_subst_fresh(t, pre, stripped, 0, rng1, fuel, (rf - 1) as nat) {
                        Err(e) => Err(e),
                        Ok((t1, rng2)) => match spec_subst_memo(
                            t,
                            pre,
                            t1,
                            0,
                            memo,
                            stack2,
                            rng2,
                            fuel,
                            (rf - 1) as nat,
                        ) {
                            Err(e) => Err(e),
                            Ok((t2, memo2, rng3)) => {
                                let ga_res = match rule.dep {
                                    Some(d) => spec_get_gender(
                                        t,
                                        pre,
                                        d,
                                        memo2,
                                        stack2,
                                        rng3,
                                        fuel,
                                        (rf - 1) as nat,
                                    ),
                                    None => Ok((Gender::Neutral, memo2, rng3)),
                                };
                                match ga_res {
                                    Err(e) => Err(e),
                                    Ok((ga, memo3, rng4)) => match spec_dots_pass(
                                        t,
                                        pre,
                                        t2,
                                        0,
                                        ga,
                                        memo3,
                                        stack2,
                                        rng4,
                                        fuel,
                                        (rf - 1) as nat,
                                    ) {
                                        Err(e) => Err(e),
                                        Ok((t3, memo4, rng5)) => match spec_slash_pass(
                                            t,
                                            pre,
                                            t3,
                                            0,
                                            ga,
                                            memo4,
                                            stack2,
                                            rng5,
                                            fuel,
                                            (rf - 1) as nat,
                                        ) {
                                            Err(e) => Err(e),
                                            Ok((t4, memo5, rng6)) => Ok(
                                                (
                                                    t4,
                                                    memo5.insert(
                                                        sym,
                                                        ResolvedV { content: t4, gender },
                                                    ),
                                                    rng6,
                                                ),
                                            ),
                                        },
                                    },
                                }
                            },
                        },
                    }
                }
            },
        }
    }
}

/// Expands every `{{name}}` reference from `i` on.  Each expansion is a
/// fresh run: it starts from the pre-seeded memo and an empty stack, reads
/// nothing of the enclosing run's memo and writes nothing to it, but draws
/// from the same generator stream.
pub open spec fn spec_subst_fresh(
    t: TableV,
    pre: MemoV,
    s: Seq<char>,
    i: int,
    rng: u64,
    fuel: nat,
    rf: nat,
) -> Result<(Seq<char>, u64), SpecErr>
    decreases fuel, rf, 2int, s.len() - i,
{
    if !(0 <= i < s.len()) {
        Ok((Seq::empty(), rng))
    } else {
        match fresh_ref_at(s, i) {
            Some((w, end)) => if fuel == 0 {
                Err(SpecErr::TooDeep(w))
            } else {
                match spec_resolve(
                    t,
                    pre,
                    w,
                    pre,
                    Seq::empty(),
                    rng,
                    (fuel - 1) as nat,
                    run_budget(t),
                ) {
                    Err(e) => Err(e),
                    Ok((c, _m, rng2)) => {
                        let j = if i < end <= s.len() {
                            end
                        } else {
                            i + 1
                        };
                        match spec_subst_fresh(t, pre, s, j, rng2, fuel, rf) {
                            Err(e) => Err(e),
                            Ok((rest, rng3)) => Ok((c + rest, rng3)),
                        }
                    },
                }
            },
            None => match spec_subst_fresh(t, pre, s, i + 1, rng, fuel, rf) {
                Err(e) => Err(e),
                Ok((rest, rng2)) => Ok((seq![s[i]] + rest, rng2)),
            },
        }
    }
}

/// Expands every `{name}` reference from `i` on through the run's memo:
/// the first reference resolves the symbol, later references reuse the
/// recorded value.
pub open spec fn spec_subst_memo(
    t: TableV,
    pre: MemoV,
    s: Seq<char>,
    i: int,
    memo: MemoV,
    stack: Seq<Seq<char>>,
    rng: u64,
    fuel: nat,
    rf: nat,
) -> Result<(Seq<char>, MemoV, u64), SpecErr>
    decreases fuel, rf, 2int, s.len() - i,
{
    if !(0 <= i < s.len()) {
        Ok((Seq::empty(), memo, rng))
    } else {
        match memo_ref_at(s, i) {
            Some((w, end)) => match spec_resolve(t, pre, w, memo, stack, rng, fuel, rf) {
                Err(e) => Err(e),
                Ok((c, memo2, rng2)) => {
                    let j = if i < end <= s.len() {
                        end
                    } else {
                        i + 1
                    };
                    match spec_subst_memo(t, pre, s, j, memo2, stack, rng2, fuel, rf) {
                        Err(e) => Err(e),
                        Ok((rest, memo3, rng3)) => Ok((c + rest, memo3, rng3)),
                    }
                },
            },
            None => match spec_subst_memo(t, pre, s, i + 1, memo, stack, rng, fuel, rf) {
                Err(e) => Err(e),
                Ok((rest, memo2, rng2)) => Ok((seq![s[i]] + rest, memo2, rng2)),
            },
        }
    }
}

/// The gender another symbol's form is resolved under: the dependency's
/// recorded gender, resolving the dependency on demand first.
pub open spec fn spec_get_gender(
    t: TableV,
    pre: MemoV,
    dep: Seq<char>,
    memo: MemoV,
    stack: Seq<Seq<char>>,
    rng: u64,
    fuel: nat,
    rf: nat,
) -> Result<(Gender, MemoV, u64), SpecErr>
    decreases fuel, rf, 1int, 0int,
{
    if memo.contains_key(dep) {
        Ok((memo[dep].gender, memo, rng))
    } else {
        match spec_resolve(t, pre, dep, memo, stack, rng, fuel, rf) {
            Err(e) => Err(e),
            Ok((_c, memo2, rng2)) => if memo2.contains_key(dep) {
                Ok((memo2[dep].gender, memo2, rng2))
            } else {
                Err(SpecErr::NoGender(dep))
            },
        }
    }
}

/// Rewrites every median-point gender form from `i` on under the governing
/// gender `ga`, or under a dependency override's gender where one stands.
pub open spec fn spec_dots_pass(
    t: TableV,
    pre: MemoV,
    s: Seq<char>,
    i: int,
    ga: Gender,
    memo: MemoV,
    stack: Seq<Seq<char>>,
    rng: u64,
    fuel: nat,
    rf: nat,
) -> Result<(Seq<char>, MemoV, u64), SpecErr>
    decreases fuel, rf, 2int, s.len() - i,
{
    if !(0 <= i < s.len()) {
        Ok((Seq::empty(), memo, rng))
    } else {
        match dots_at(s, i) {
            Some(m) => {
                let gr = match m.dep {
                    Some(d) => spec_get_gender(t, pre, d, memo, stack, rng, fuel, rf),
                    None => Ok((ga, memo, rng)),
                };
                match gr {
                    Err(e) => Err(e),
                    Ok((g, memo2, rng2)) => {
                        let j = if i < m.end <= s.len() {
                            m.end
                        } else {
                            i + 1
                        };
                        match spec_dots_pass(t, pre, s, j, ga, memo2, stack, rng2, fuel, rf) {
                            Err(e) => Err(e),
                            Ok((rest, memo3, rng3)) => Ok(
                                (dots_replacement(m, g) + rest, memo3, rng3),
                            ),
                        }
                    },
                }
            },
            None => match spec_dots_pass(t, pre, s, i + 1, ga, memo, stack, rng, fuel, rf) {
                Err(e) => Err(e),
                Ok((rest, memo2, rng2)) => Ok((seq![s[i]] + rest, memo2, rng2)),
            },
        }
    }
}

/// Rewrites every slash gender form from `i` on, in the same way.
pub open spec fn spec_slash_pass(
    t: TableV,
    pre: MemoV,
    s: Seq<char>,
    i: int,
    ga: Gender,
    memo: MemoV,
    stack: Seq<Seq<char>>,
    rng: u64,
    fuel: nat,
    rf: nat,
) -> Result<(Seq<char>, MemoV, u64), SpecErr>
    decreases fuel, rf, 2int, s.len() - i,
{
    if !(0 <= i < s.len()) {
        Ok((Seq::empty(), memo, rng))
    } else {
        match slash_at(s, i) {
            Some(m) => {
                let gr = match m.dep {
                    Some(d) => spec_get_gender(t, pre, d, memo, stack, rng, fuel, rf),
                    None => Ok((ga, memo, rng)),
                };
                match gr {
                    Err(e) => Err(e),
                    Ok((g, memo2, rng2)) => {
                        let j = if i < m.end <= s.len() {
                            m.end
                        } else {
                            i + 1
                        };
                        match spec_slash_pass(t, pre, s, j, ga, memo2, stack, rng2, fuel, rf) {
                            Err(e) => Err(e),
                            Ok((rest, memo3, rng3)) => Ok(
                                (slash_replacement(m, g) + rest, memo3, rng3),
                            ),
                        }
                    },
                }
            },
            None => match spec_slash_pass(t, pre, s, i + 1, ga, memo, stack, rng, fuel, rf) {
                Err(e) => Err(e),
                Ok((rest, memo2, rng2)) => Ok((seq![s[i]] + rest, memo2, rng2)),
            },
        }
    }
}

/// A whole instantiation: resolve the root symbol from the pre-seeded memo
/// with the seed as generator state, then decode the result.
pub open spec fn spec_instantiate(t: TableV, pre: MemoV, sym: Seq<char>, seed: u64) -> Result<
    Seq<char>,
    SpecErr,
> {
    match spec_resolve(t, pre, sym, pre, Seq::empty(), seed, run_budget(t), run_budget(t)) {
        Err(e) => Err(e),
        Ok((c, _m, _r)) => Ok(crate::codec::decode(c, 0)),
    }
}

} // verus!
