//! The executable instantiation engine.
//!
//! Every function here mirrors one spec function of [`crate::engine`] and is
//! proved to return exactly its value: the text, the memo, the recursion
//! stack and the generator state all evolve as the model says.  On an error
//! the whole run is abandoned, so only the returned error is pinned down.

use vstd::prelude::*;

use crate::chars::copy_range;
use crate::chars::append_chars;
use crate::chars::chars_to_string;
use crate::engine::run_budget;
use crate::engine::spec_dots_pass;
use crate::engine::spec_get_gender;
use crate::engine::spec_resolve;
use crate::engine::spec_slash_pass;
use crate::engine::spec_subst_fresh;
use crate::engine::spec_subst_memo;
use crate::errors::GenError;
use crate::gender::Gender;
use crate::rng::SplitMix;
use crate::scan::build_dots;
use crate::scan::build_slash;
use crate::scan::find_dots;
use crate::scan::find_fresh_ref;
use crate::scan::find_memo_ref;
use crate::scan::find_slash;
use crate::scan::gender_scan;
use crate::table::Resolved;
use crate::table::Rule;
use crate::table::memo_get;
use crate::table::memo_insert;
use crate::table::memo_map;
use crate::table::memo_view;
use crate::table::stack_contains;
use crate::table::stack_view;
use crate::table::table_get;
use crate::table::table_view;

verus! {

/// The recursion budget of one run over this table.
pub fn budget_of(table: &Vec<(Vec<char>, Rule)>) -> (b: u64)
    ensures
        b as nat == run_budget(table_view(table@)),
{
    let l = table.len();
    if l < 0xFFFFFFFFusize {
        (l as u64) + 2
    } else {
        0xFFFFFFFF
    }
}

/// Copies a memo, entry for entry.
pub fn clone_memo(src: &Vec<(Vec<char>, Resolved)>) -> (out: Vec<(Vec<char>, Resolved)>)
    ensures
        memo_view(out@) == memo_view(src@),
{
    let mut out: Vec<(Vec<char>, Resolved)> = Vec::new();
    let mut i: usize = 0;
    while i < src.len()
        invariant
            i <= src@.len(),
            out@.len() == i,
            forall|k: int| 0 <= k < i ==> memo_view(out@)[k] == memo_view(src@)[k],
        decreases src@.len() - i,
    {
        let name = copy_range(&src[i].0, 0, src[i].0.len());
        let content = copy_range(&src[i].1.content, 0, src[i].1.content.len());
        let gender = src[i].1.gender;
        out.push((name, Resolved { content, gender }));
        proof {
            assert(name@ =~= src@[i as int].0@);
            assert(content@ =~= src@[i as int].1.content@);
            assert(memo_view(out@)[i as int] == (name@, Resolved { content, gender }@));
        }
        i = i + 1;
    }
    proof {
        assert(memo_view(out@) =~= memo_view(src@));
    }
    out
}

/// Copies a whole character vector.
fn clone_chars(v: &Vec<char>) -> (out: Vec<char>)
    ensures
        out@ == v@,
{
    let out = copy_range(v, 0, v.len());
    proof {
        assert(out@ =~= v@);
    }
    out
}

/// Resolves one symbol against the table: exec mirror of
/// [`spec_resolve`].  On success the memo gains the symbol's resolved
/// value and the stack is as it was; on an error the run is abandoned.
pub fn resolve_sym(
    table: &Vec<(Vec<char>, Rule)>,
    pre: &Vec<(Vec<char>, Resolved)>,
    sym: &Vec<char>,
    memo: &mut Vec<(Vec<char>, Resolved)>,
    stack: &mut Vec<Vec<char>>,
    rng: &mut SplitMix,
    fuel: u64,
    rf: u64,
) -> (res: Result<Vec<char>, GenError>)
    ensures
        ({
            let sr = spec_resolve(
                table_view(table@),
                memo_map(memo_view(pre@)),
                sym@,
                memo_map(memo_view(old(memo)@)),
                stack_view(old(stack)@),
                old(rng).state,
                fuel as nat,
                rf as nat,
            );
            match res {
                Ok(c) => sr == Ok::<_, crate::errors::SpecErr>(
                    (c@, memo_map(memo_view(final(memo)@)), final(rng).state),
                ) && final(stack)@ == old(stack)@,
                Err(e) => sr == Err::<(Seq<char>, crate::engine::MemoV, u64), _>(e@),
            }
        }),
    decreases fuel, rf, 0int, 0int,
{
    let ghost stack0 = stack_view(stack@);
    let ghost rng0 = rng.state;
    if let Some(r) = memo_get(memo, sym) {
        let c = clone_chars(&r.content);
        return Ok(c);
    }
    if stack_contains(stack, sym) {
        return Err(GenError::CyclicDependency(chars_to_string(sym)));
    }
    if rf == 0 {
        return Err(GenError::RecursionLimit(chars_to_string(sym)));
    }
    let rule = match table_get(table, sym) {
        None => {
            return Err(GenError::UnknownSymbol(chars_to_string(sym)));
        },
        Some(r) => r,
    };
    stack.push(clone_chars(sym));
    proof {
        assert(stack_view(stack@) =~= stack0.push(sym@));
    }
    let cl = rule.candidates.len();
    let cand: Vec<char> = if cl == 0 {
        Vec::new()
    } else {
        let ix = rng.next_below(cl);
        clone_chars(&rule.candidates[ix])
    };
    proof {
        let rv = rule@;
        if cl == 0 {
            assert(cand@ =~= Seq::<char>::empty());
        } else {
            let ix = crate::rng::spec_below(rng0, rv.cands.len() as int);
            assert(rv.cands[ix] == rule.candidates@[ix]@);
            assert(cand@ == rv.cands[ix]);
        }
    }
    let (cnt, gender, stripped) = gender_scan(&cand);
    if cnt >= 2 {
        return Err(
            GenError::MultipleGenderMarkers(chars_to_string(sym), chars_to_string(&cand)),
        );
    }
    let t1 = match subst_fresh(table, pre, &stripped, 0, rng, fuel, rf - 1) {
        Err(e) => {
            return Err(e);
        },
        Ok(t) => t,
    };
    let t2 = match subst_memo(table, pre, &t1, 0, memo, stack, rng, fuel, rf - 1) {
        Err(e) => {
            return Err(e);
        },
        Ok(t) => t,
    };
    let ga = match &rule.gender_dependency {
        Some(d) => match get_gender(table, pre, d, memo, stack, rng, fuel, rf - 1) {
            Err(e) => {
                return Err(e);
            },
            Ok(g) => g,
        },
        None => Gender::Neutral,
    };
    let t3 = match dots_pass(table, pre, &t2, 0, ga, memo, stack, rng, fuel, rf - 1) {
        Err(e) => {
            return Err(e);
        },
        Ok(t) => t,
    };
    let t4 = match slash_pass(table, pre, &t3, 0, ga, memo, stack, rng, fuel, rf - 1) {
        Err(e) => {
            return Err(e);
        },
        Ok(t) => t,
    };
    memo_insert(memo, clone_chars(sym), Resolved { content: clone_chars(&t4), gender });
    let _popped = stack.pop();
    proof {
        assert(stack@ =~= old(stack)@);
    }
    Ok(t4)
}

/// Expands every `{{name}}` reference: exec mirror of
/// [`spec_subst_fresh`].  Each expansion starts a fresh run from the
/// pre-seeded memo and an empty stack.
pub fn subst_fresh(
    table: &Vec<(Vec<char>, Rule)>,
    pre: &Vec<(Vec<char>, Resolved)>,
    s: &Vec<char>,
    i: usize,
    rng: &mut SplitMix,
    fuel: u64,
    rf: u64,
) -> (res: Result<Vec<char>, GenError>)
    requires
        i <= s@.len(),
    ensures
        ({
            let sr = spec_subst_fresh(
                table_view(table@),
                memo_map(memo_view(pre@)),
                s@,
                i as int,
                old(rng).state,
                fuel as nat,
                rf as nat,
            );
            match res {
                Ok(c) => sr == Ok::<_, crate::errors::SpecErr>((c@, final(rng).state)),
                Err(e) => sr == Err::<(Seq<char>, u64), _>(e@),
            }
        }),
    decreases fuel, rf, 2int, s@.len() - i,
{
    if i >= s.len() {
        return Ok(Vec::new());
    }
    match find_fresh_ref(s, i) {
        Some((w, end)) => {
            if fuel == 0 {
                return Err(GenError::RecursionLimit(chars_to_string(&w)));
            }
            let mut fresh_memo = clone_memo(pre);
            let mut fresh_stack: Vec<Vec<char>> = Vec::new();
            let budget = budget_of(table);
            proof {
                assert(stack_view(fresh_stack@) =~= Seq::<Seq<char>>::empty());
            }
            match resolve_sym(
                table,
                pre,
                &w,
                &mut fresh_memo,
                &mut fresh_stack,
                rng,
                fuel - 1,
                budget,
            ) {
                Err(e) => Err(e),
                Ok(c) => {
                    match subst_fresh(table, pre, s, end, rng, fuel, rf) {
                        Err(e) => Err(e),
                        Ok(rest) => {
                            let mut out = c;
                            append_chars(&mut out, &rest);
                            Ok(out)
                        },
                    }
                },
            }
        },
        None => {
            let c0 = s[i];
            match subst_fresh(table, pre, s, i + 1, rng, fuel, rf) {
                Err(e) => Err(e),
                Ok(rest) => {
                    let mut out: Vec<char> = Vec::new();
                    out.push(c0);
                    append_chars(&mut out, &rest);
                    proof {
                        assert(out@ =~= seq![s@[i as int]] + rest@);
                    }
                    Ok(out)
                },
            }
        },
    }
}

/// Expands every `{name}` reference through the run's memo: exec mirror of
/// [`spec_subst_memo`].
pub fn subst_memo(
    table: &Vec<(Vec<char>, Rule)>,
    pre: &Vec<(Vec<char>, Resolved)>,
    s: &Vec<char>,
    i: usize,
    memo: &mut Vec<(Vec<char>, Resolved)>,
    stack: &mut Vec<Vec<char>>,
    rng: &mut SplitMix,
    fuel: u64,
    rf: u64,
) -> (res: Result<Vec<char>, GenError>)
    requires
        i <= s@.len(),
    ensures
        ({
            let sr = spec_subst_memo(
                table_view(table@),
                memo_map(memo_view(pre@)),
                s@,
                i as int,
                memo_map(memo_view(old(memo)@)),
                stack_view(old(stack)@),
                old(rng).state,
                fuel as nat,
                rf as nat,
            );
            match res {
                Ok(c) => sr == Ok::<_, crate::errors::SpecErr>(
                    (c@, memo_map(memo_view(final(memo)@)), final(rng).state),
                ) && final(stack)@ == old(stack)@,
                Err(e) => sr == Err::<(Seq<char>, crate::engine::MemoV, u64), _>(e@),
            }
        }),
    decreases fuel, rf, 2int, s@.len() - i,
{
    if i >= s.len() {
        return Ok(Vec::new());
    }
    match find_memo_ref(s, i) {
        Some((w, end)) => {
            match resolve_sym(table, pre, &w, memo, stack, rng, fuel, rf) {
                Err(e) => Err(e),
                Ok(c) => {
                    match subst_memo(table, pre, s, end, memo, stack, rng, fuel, rf) {
                        Err(e) => Err(e),
                        Ok(rest) => {
                            let mut out = c;
                            append_chars(&mut out, &rest);
                            Ok(out)
                        },
                    }
                },
            }
        },
        None => {
            let c0 = s[i];
            match subst_memo(table, pre, s, i + 1, memo, stack, rng, fuel, rf) {
                Err(e) => Err(e),
                Ok(rest) => {
                    let mut out: Vec<char> = Vec::new();
                    out.push(c0);
                    append_chars(&mut out, &rest);
                    proof {
                        assert(out@ =~= seq![s@[i as int]] + rest@);
                    }
                    Ok(out)
                },
            }
        },
    }
}

/// The gender a dependency carries, resolving it on demand: exec mirror of
/// [`spec_get_gender`].
pub fn get_gender(
    table: &Vec<(Vec<char>, Rule)>,
    pre: &Vec<(Vec<char>, Resolved)>,
    dep: &Vec<char>,
    memo: &mut Vec<(Vec<char>, Resolved)>,
    stack: &mut Vec<Vec<char>>,
    rng: &mut SplitMix,
    fuel: u64,
    rf: u64,
) -> (res: Result<Gender, GenError>)
    ensures
        ({
            let sr = spec_get_gender(
                table_view(table@),
                memo_map(memo_view(pre@)),
                dep@,
                memo_map(memo_view(old(memo)@)),
                stack_view(old(stack)@),
                old(rng).state,
                fuel as nat,
                rf as nat,
            );
            match res {
                Ok(g) => sr == Ok::<_, crate::errors::SpecErr>(
                    (g, memo_map(memo_view(final(memo)@)), final(rng).state),
                ) && final(stack)@ == old(stack)@,
                Err(e) => sr == Err::<(Gender, crate::engine::MemoV, u64), _>(e@),
            }
        }),
    decreases fuel, rf, 1int, 0int,
{
    if let Some(r) = memo_get(memo, dep) {
        return Ok(r.gender);
    }
    match resolve_sym(table, pre, dep, memo, stack, rng, fuel, rf) {
        Err(e) => Err(e),
        Ok(_c) => {
            if let Some(r) = memo_get(memo, dep) {
                Ok(r.gender)
            } else {
                Err(GenError::GenderUnavailable(chars_to_string(dep)))
            }
        },
    }
}

/// Rewrites every median-point gender form: exec mirror of
/// [`spec_dots_pass`].
pub fn dots_pass(
    table: &Vec<(Vec<char>, Rule)>,
    pre: &Vec<(Vec<char>, Resolved)>,
    s: &Vec<char>,
    i: usize,
    ga: Gender,
    memo: &mut Vec<(Vec<char>, Resolved)>,
    stack: &mut Vec<Vec<char>>,
    rng: &mut SplitMix,
    fuel: u64,
    rf: u64,
) -> (res: Result<Vec<char>, GenError>)
    requires
        i <= s@.len(),
    ensures
        ({
            let sr = spec_dots_pass(
                table_view(table@),
                memo_map(memo_view(pre@)),
                s@,
                i as int,
                ga,
                memo_map(memo_view(old(memo)@)),
                stack_view(old(stack)@),
                old(rng).state,
                fuel as nat,
                rf as nat,
            );
            match res {
                Ok(c) => sr == Ok::<_, crate::errors::SpecErr>(
                    (c@, memo_map(memo_view(final(memo)@)), final(rng).state),
                ) && final(stack)@ == old(stack)@,
                Err(e) => sr == Err::<(Seq<char>, crate::engine::MemoV, u64), _>(e@),
            }
        }),
    decreases fuel, rf, 2int, s@.len() - i,
{
    if i >= s.len() {
        return Ok(Vec::new());
    }
    match find_dots(s, i) {
        Some(d) => {
            let g = match &d.dep {
                Some(dp) => match get_gender(table, pre, dp, memo, stack, rng, fuel, rf) {
                    Err(e) => {
                        return Err(e);
                    },
                    Ok(g) => g,
                },
                None => ga,
            };
            match dots_pass(table, pre, s, d.end, ga, memo, stack, rng, fuel, rf) {
                Err(e) => Err(e),
                Ok(rest) => {
                    let mut out = build_dots(&d, g);
                    append_chars(&mut out, &rest);
                    Ok(out)
                },
            }
        },
        None => {
            let c0 = s[i];
            match dots_pass(table, pre, s, i + 1, ga, memo, stack, rng, fuel, rf) {
                Err(e) => Err(e),
                Ok(rest) => {
                    let mut out: Vec<char> = Vec::new();
                    out.push(c0);
                    append_chars(&mut out, &rest);
                    proof {
                        assert(out@ =~= seq![s@[i as int]] + rest@);
                    }
                    Ok(out)
                },
            }
        },
    }
}

/// Rewrites every slash gender form: exec mirror of [`spec_slash_pass`].
pub fn slash_pass(
    table: &Vec<(Vec<char>, Rule)>,
    pre: &Vec<(Vec<char>, Resolved)>,
    s: &Vec<char>,
    i: usize,
    ga: Gender,
    memo: &mut Vec<(Vec<char>, Resolved)>,
    stack: &mut Vec<Vec<char>>,
    rng: &mut SplitMix,
    fuel: u64,
    rf: u64,
) -> (res: Result<Vec<char>, GenError>)
    requires
        i <= s@.len(),
    ensures
        ({
            let sr = spec_slash_pass(
                table_view(table@),
                memo_map(memo_view(pre@)),
                s@,
                i as int,
                ga,
                memo_map(memo_view(old(memo)@)),
                stack_view(old(stack)@),
                old(rng).state,
                fuel as nat,
                rf as nat,
            );
            match res {
                Ok(c) => sr == Ok::<_, crate::errors::SpecErr>(
                    (c@, memo_map(memo_view(final(memo)@)), final(rng).state),
                ) && final(stack)@ == old(stack)@,
                Err(e) => sr == Err::<(Seq<char>, crate::engine::MemoV, u64), _>(e@),
            }
        }),
    decreases fuel, rf, 2int, s@.len() - i,
{
    if i >= s.len() {
        return Ok(Vec::new());
    }
    match find_slash(s, i) {
        Some(d) => {
            let g = match &d.dep {
                Some(dp) => match get_gender(table, pre, dp, memo, stack, rng, fuel, rf) {
                    Err(e) => {
                        return Err(e);
                    },
                    Ok(g) => g,
                },
                None => ga,
            };
            match slash_pass(table, pre, s, d.end, ga, memo, stack, rng, fuel, rf) {
                Err(e) => Err(e),
                Ok(rest) => {
                    let mut out = build_slash(&d, g);
                    append_chars(&mut out, &rest);
                    Ok(out)
                },
            }
        },
        None => {
            let c0 = s[i];
            match slash_pass(table, pre, s, i + 1, ga, memo, stack, rng, fuel, rf) {
                Err(e) => Err(e),
                Ok(rest) => {
                    let mut out: Vec<char> = Vec::new();
                    out.push(c0);
                    append_chars(&mut out, &rest);
                    proof {
                        assert(out@ =~= seq![s@[i as int]] + rest@);
                    }
                    Ok(out)
                },
            }
        },
    }
}

} // verus!
