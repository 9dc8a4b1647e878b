//! The engine's guarantees, stated and proved over the model.
//!
//! The codec's round-trip law lives beside the codec in [`crate::codec`].

use vstd::prelude::*;

use crate::engine::MemoV;
use crate::engine::TableV;
use crate::engine::count_markers;
use crate::engine::first_marker;
use crate::engine::fresh_ref_at;
use crate::engine::memo_ref_at;
use crate::engine::run_budget;
use crate::engine::spec_dots_pass;
use crate::engine::spec_get_gender;
use crate::engine::spec_resolve;
use crate::engine::spec_slash_pass;
use crate::engine::spec_subst_fresh;
use crate::engine::spec_subst_memo;
use crate::engine::strip_markers;
use crate::errors::SpecErr;
use crate::errors::GenError;
use crate::gender::Gender;
use crate::generator::result_matches;
use crate::table::ResolvedV;
use crate::table::table_find;

verus! {

/// `m2` keeps every binding of `m1`.
pub open spec fn memo_extends(m1: MemoV, m2: MemoV) -> bool {
    forall|k: Seq<char>| #[trigger] m1.contains_key(k) ==> m2.contains_key(k) && m2[k] == m1[k]
}

/// No name of `stack` that `m1` lacks appears in `m2`: symbols being
/// resolved enter the memo only when their own resolution completes.
pub open spec fn stack_avoided(m1: MemoV, m2: MemoV, stack: Seq<Seq<char>>) -> bool {
    forall|k: Seq<char>| #[trigger] stack.contains(k) && !m1.contains_key(k) ==> !m2.contains_key(
        k,
    )
}

/// A successful resolution records the symbol: the memo it returns holds
/// the returned text under the symbol's name.
pub proof fn lemma_resolve_records_symbol(
    t: TableV,
    pre: MemoV,
    sym: Seq<char>,
    memo: MemoV,
    stack: Seq<Seq<char>>,
    rng: u64,
    fuel: nat,
    rf: nat,
)
    ensures
        match spec_resolve(t, pre, sym, memo, stack, rng, fuel, rf) {
            Ok((c, m2, r2)) => m2.contains_key(sym) && m2[sym].content == c,
            Err(_) => true,
        },
{
}

/// Memoization: a reference to a symbol the run has already resolved
/// returns the recorded text at once — it draws nothing from the
/// generator, changes no state, and cannot fail.
pub proof fn lemma_memoized_reference(
    t: TableV,
    pre: MemoV,
    sym: Seq<char>,
    memo: MemoV,
    stack: Seq<Seq<char>>,
    rng: u64,
    fuel: nat,
    rf: nat,
)
    requires
        memo.contains_key(sym),
    ensures
        spec_resolve(t, pre, sym, memo, stack, rng, fuel, rf) == Ok::<_, SpecErr>(
            (memo[sym].content, memo, rng),
        ),
{
}

/// Memoization, across two references: after a symbol resolves once,
/// resolving it again from the resulting memo — under any later stack,
/// generator state or budget — yields byte-identical text and leaves the
/// memo as it was.
pub proof fn lemma_second_reference_identical(
    t: TableV,
    pre: MemoV,
    sym: Seq<char>,
    memo: MemoV,
    stack: Seq<Seq<char>>,
    rng: u64,
    fuel: nat,
    rf: nat,
    stack2: Seq<Seq<char>>,
    rng2: u64,
    fuel2: nat,
    rf2: nat,
)
    requires
        spec_resolve(t, pre, sym, memo, stack, rng, fuel, rf) is Ok,
    ensures
        ({
            let out = spec_resolve(t, pre, sym, memo, stack, rng, fuel, rf)->Ok_0;
            spec_resolve(t, pre, sym, out.1, stack2, rng2, fuel2, rf2) == Ok::<_, SpecErr>(
                (out.0, out.1, rng2),
            )
        }),
{
    lemma_resolve_records_symbol(t, pre, sym, memo, stack, rng, fuel, rf);
}

/// Resolution only grows the run's memo: every recorded value survives,
/// and no symbol still on the recursion stack is recorded behind its back.
pub proof fn lemma_resolve_extends(
    t: TableV,
    pre: MemoV,
    sym: Seq<char>,
    memo: MemoV,
    stack: Seq<Seq<char>>,
    rng: u64,
    fuel: nat,
    rf: nat,
)
    ensures
        match spec_resolve(t, pre, sym, memo, stack, rng, fuel, rf) {
            Ok((c, m2, r2)) => memo_extends(memo, m2) && stack_avoided(memo, m2, stack),
            Err(_) => true,
        },
    decreases fuel, rf, 0int, 0int,
{
    if memo.contains_key(sym) || stack.contains(sym) || rf == 0 {
    } else {
        match table_find(t, sym) {
            None => {},
            Some(rule) => {
                let stack2 = stack.push(sym);
                let cand = if rule.cands.len() == 0 {
                    Seq::<char>::empty()
                } else {
                    rule.cands[crate::rng::spec_below(rng, rule.cands.len() as int)]
                };
                let rng1 = if rule.cands.len() == 0 {
                    rng
                } else {
                    crate::rng::next_state(rng)
                };
                if count_markers(cand, 0) < 2 {
                    let gender = if count_markers(cand, 0) == 1 {
                        first_marker(cand, 0)
                    } else {
                        Gender::Neutral
                    };
                    let stripped = strip_markers(cand, 0);
                    match spec_subst_fresh(t, pre, stripped, 0, rng1, fuel, (rf - 1) as nat) {
                        Err(_) => {},
                        Ok((t1, rng2)) => {
                            lemma_subst_memo_extends(
                                t,
                                pre,
                                t1,
                                0,
                                memo,
                                stack2,
                                rng2,
                                fuel,
                                (rf - 1) as nat,
                            );
                            match spec_subst_memo(
                                t,
                                pre,
                                t1,
                                0,
                                memo,
                                stack2,
                                rng2,
                                fuel,
                                (rf - 1) as nat,
                            ) {
                                Err(_) => {},
                                Ok((t2, memo2, rng3)) => {
                                    let ga_res = match rule.dep {
                                        Some(d) => spec_get_gender(
                                            t,
                                            pre,
                                            d,
                                            memo2,
                                            stack2,
                                            rng3,
                                            fuel,
                                            (rf - 1) as nat,
                                        ),
                                        None => Ok((Gender::Neutral, memo2, rng3)),
                                    };
                                    if rule.dep is Some {
                                        lemma_get_gender_extends(
                                            t,
                                            pre,
                                            rule.dep->0,
                                            memo2,
                                            stack2,
                                            rng3,
                                            fuel,
                                            (rf - 1) as nat,
                                        );
                                    }
                                    match ga_res {
                                        Err(_) => {},
                                        Ok((ga, memo3, rng4)) => {
                                            lemma_dots_extends(
                                                t,
                                                pre,
                                                t2,
                                                0,
                                                ga,
                                                memo3,
                                                stack2,
                                                rng4,
                                                fuel,
                                                (rf - 1) as nat,
                                            );
                                            match spec_dots_pass(
                                                t,
                                                pre,
                                                t2,
                                                0,
                                                ga,
                                                memo3,
                                                stack2,
                                                rng4,
                                                fuel,
                                                (rf - 1) as nat,
                                            ) {
                                                Err(_) => {},
                                                Ok((t3, memo4, rng5)) => {
                                                    lemma_slash_extends(
                                                        t,
                                                        pre,
                                                        t3,
                                                        0,
                                                        ga,
                                                        memo4,
                                                        stack2,
                                                        rng5,
                                                        fuel,
                                                        (rf - 1) as nat,
                                                    );
                                                    match spec_slash_pass(
                                                        t,
                                                        pre,
                                                        t3,
                                                        0,
                                                        ga,
                                                        memo4,
                                                        stack2,
                                                        rng5,
                                                        fuel,
                                                        (rf - 1) as nat,
                                                    ) {
                                                        Err(_) => {},
                                                        Ok((t4, memo5, rng6)) => {
                                                            let m2 = memo5.insert(
                                                                sym,
                                                                ResolvedV { content: t4, gender },
                                                            );
                                                            assert(stack2[stack.len() as int]
                                                                == sym);
                                                            assert(stack2.contains(sym));
                                                            assert forall|k: Seq<char>|
                                                                memo.contains_key(k) implies
                                                                m2.contains_key(k) && m2[k]
                                                                == memo[k] by {
                                                                assert(memo2.contains_key(k));
                                                                assert(memo3.contains_key(k));
                                                                assert(memo4.contains_key(k));
                                                                assert(memo5.contains_key(k));
                                                                assert(k != sym);
                                                            }
                                                            assert forall|k: Seq<char>|
                                                                stack.contains(k)
                                                                && !memo.contains_key(k) implies !m2.contains_key(
                                                                k,
                                                            ) by {
                                                                let i = choose|i: int|
                                                                    0 <= i < stack.len()
                                                                        && stack[i] == k;
                                                                assert(stack2[i] == k);
                                                                assert(stack2.contains(k));
                                                                assert(!memo2.contains_key(k));
                                                                assert(!memo3.contains_key(k));
                                                                assert(!memo4.contains_key(k));
                                                                assert(!memo5.contains_key(k));
                                                                assert(k != sym);
                                                            }
                                                        },
                                                    }
                                                },
                                            }
                                        },
                                    }
                                },
                            }
                        },
                    }
                }
            },
        }
    }
}

/// The memoized-reference pass only grows the memo, in the same sense.
pub proof fn lemma_subst_memo_extends(
    t: TableV,
    pre: MemoV,
    s: Seq<char>,
    i: int,
    memo: MemoV,
    stack: Seq<Seq<char>>,
    rng: u64,
    fuel: nat,
    rf: nat,
)
    ensures
        match spec_subst_memo(t, pre, s, i, memo, stack, rng, fuel, rf) {
            Ok((c, m2, r2)) => memo_extends(memo, m2) && stack_avoided(memo, m2, stack),
            Err(_) => true,
        },
    decreases fuel, rf, 2int, s.len() - i,
{
    if 0 <= i < s.len() {
        match memo_ref_at(s, i) {
            Some((w, end)) => {
                lemma_resolve_extends(t, pre, w, memo, stack, rng, fuel, rf);
                match spec_resolve(t, pre, w, memo, stack, rng, fuel, rf) {
                    Err(_) => {},
                    Ok((c, memo2, rng2)) => {
                        let j = if i < end <= s.len() {
                            end
                        } else {
                            i + 1
                        };
                        lemma_subst_memo_extends(t, pre, s, j, memo2, stack, rng2, fuel, rf);
                    },
                }
            },
            None => {
                lemma_subst_memo_extends(t, pre, s, i + 1, memo, stack, rng, fuel, rf);
            },
        }
    }
}

/// Looking a dependency's gender up only grows the memo, in the same
/// sense.
pub proof fn lemma_get_gender_extends(
    t: TableV,
    pre: MemoV,
    dep: Seq<char>,
    memo: MemoV,
    stack: Seq<Seq<char>>,
    rng: u64,
    fuel: nat,
    rf: nat,
)
    ensures
        match spec_get_gender(t, pre, dep, memo, stack, rng, fuel, rf) {
            Ok((g, m2, r2)) => memo_extends(memo, m2) && stack_avoided(memo, m2, stack),
            Err(_) => true,
        },
    decreases fuel, rf, 1int, 0int,
{
    if !memo.contains_key(dep) {
        lemma_resolve_extends(t, pre, dep, memo, stack, rng, fuel, rf);
    }
}

/// The median-point pass only grows the memo, in the same sense.
pub proof fn lemma_dots_extends(
    t: TableV,
    pre: MemoV,
    s: Seq<char>,
    i: int,
    ga: Gender,
    memo: MemoV,
    stack: Seq<Seq<char>>,
    rng: u64,
    fuel: nat,
    rf: nat,
)
    ensures
        match spec_dots_pass(t, pre, s, i, ga, memo, stack, rng, fuel, rf) {
            Ok((c, m2, r2)) => memo_extends(memo, m2) && stack_avoided(memo, m2, stack),
            Err(_) => true,
        },
    decreases fuel, rf, 2int, s.len() - i,
{
    if 0 <= i < s.len() {
        match crate::engine::dots_at(s, i) {
            Some(m) => {
                let gr = match m.dep {
                    Some(d) => spec_get_gender(t, pre, d, memo, stack, rng, fuel, rf),
                    None => Ok((ga, memo, rng)),
                };
                if m.dep is Some {
                    lemma_get_gender_extends(t, pre, m.dep->0, memo, stack, rng, fuel, rf);
                }
                match gr {
                    Err(_) => {},
                    Ok((g, memo2, rng2)) => {
                        let j = if i < m.end <= s.len() {
                            m.end
                        } else {
                            i + 1
                        };
                        lemma_dots_extends(t, pre, s, j, ga, memo2, stack, rng2, fuel, rf);
                    },
                }
            },
            None => {
                lemma_dots_extends(t, pre, s, i + 1, ga, memo, stack, rng, fuel, rf);
            },
        }
    }
}

/// The slash pass only grows the memo, in the same sense.
pub proof fn lemma_slash_extends(
    t: TableV,
    pre: MemoV,
    s: Seq<char>,
    i: int,
    ga: Gender,
    memo: MemoV,
    stack: Seq<Seq<char>>,
    rng: u64,
    fuel: nat,
    rf: nat,
)
    ensures
        match spec_slash_pass(t, pre, s, i, ga, memo, stack, rng, fuel, rf) {
            Ok((c, m2, r2)) => memo_extends(memo, m2) && stack_avoided(memo, m2, stack),
            Err(_) => true,
        },
    decreases fuel, rf, 2int, s.len() - i,
{
    if 0 <= i < s.len() {
        match crate::engine::slash_at(s, i) {
            Some(m) => {
                let gr = match m.dep {
                    Some(d) => spec_get_gender(t, pre, d, memo, stack, rng, fuel, rf),
                    None => Ok((ga, memo, rng)),
                };
                if m.dep is Some {
                    lemma_get_gender_extends(t, pre, m.dep->0, memo, stack, rng, fuel, rf);
                }
                match gr {
                    Err(_) => {},
                    Ok((g, memo2, rng2)) => {
                        let j = if i < m.end <= s.len() {
                            m.end
                        } else {
                            i + 1
                        };
                        lemma_slash_extends(t, pre, s, j, ga, memo2, stack, rng2, fuel, rf);
                    },
                }
            },
            None => {
                lemma_slash_extends(t, pre, s, i + 1, ga, memo, stack, rng, fuel, rf);
            },
        }
    }
}

/// Memoization across a whole run: once `x` is recorded, any amount of
/// further resolution keeps its value, so a later `{x}` reference still
/// returns exactly the recorded text.
pub proof fn lemma_memoization_across_run(
    t: TableV,
    pre: MemoV,
    x: Seq<char>,
    sym: Seq<char>,
    memo: MemoV,
    stack: Seq<Seq<char>>,
    rng: u64,
    fuel: nat,
    rf: nat,
    stack2: Seq<Seq<char>>,
    rng2: u64,
    fuel2: nat,
    rf2: nat,
)
    requires
        memo.contains_key(x),
    ensures
        match spec_resolve(t, pre, sym, memo, stack, rng, fuel, rf) {
            Ok((c, m2, r2)) => spec_resolve(t, pre, x, m2, stack2, rng2, fuel2, rf2) == Ok::<
                _,
                SpecErr,
            >((memo[x].content, m2, rng2)),
            Err(_) => true,
        },
{
    lemma_resolve_extends(t, pre, sym, memo, stack, rng, fuel, rf);
}

/// Fresh draw independence: a `{{name}}` reference expands as a whole
/// fresh run — against the pre-seeded memo alone and an empty recursion
/// stack — spliced before the rest of the pass.  The enclosing run's memo
/// is not an input of the fresh pass at all and nothing of the fresh run's
/// memo outlives it: only the generator state carries over.
pub proof fn lemma_fresh_reference_independent(
    t: TableV,
    pre: MemoV,
    s: Seq<char>,
    i: int,
    rng: u64,
    fuel: nat,
    rf: nat,
)
    requires
        0 <= i < s.len(),
        fresh_ref_at(s, i) is Some,
        fuel > 0,
    ensures
        ({
            let (w, end) = fresh_ref_at(s, i)->0;
            spec_subst_fresh(t, pre, s, i, rng, fuel, rf) == (match spec_resolve(
                t,
                pre,
                w,
                pre,
                Seq::<Seq<char>>::empty(),
                rng,
                (fuel - 1) as nat,
                run_budget(t),
            ) {
                Err(e) => Err(e),
                Ok((c, _m, rng2)) => {
                    let j = if i < end <= s.len() {
                        end
                    } else {
                        i + 1
                    };
                    match spec_subst_fresh(t, pre, s, j, rng2, fuel, rf) {
                        Err(e) => Err(e),
                        Ok((rest, rng3)) => Ok((c + rest, rng3)),
                    }
                },
            })
        }),
{
}

/// Determinism: with the table, the pre-seeded genders, the symbol and the
/// seed unchanged, two seeded instantiations return identical results.
pub proof fn lemma_seeded_determinism(
    t: TableV,
    pre: MemoV,
    sym: Seq<char>,
    seed: u64,
    r1: Result<String, GenError>,
    r2: Result<String, GenError>,
)
    requires
        result_matches(t, pre, sym, seed, r1),
        result_matches(t, pre, sym, seed, r2),
    ensures
        match (r1, r2) {
            (Ok(a), Ok(b)) => a@ == b@,
            (Err(a), Err(b)) => a@ == b@,
            _ => false,
        },
{
}

} // verus!
