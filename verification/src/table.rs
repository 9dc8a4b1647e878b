//! The symbol table and the run-local state it is read through.
//!
//! A replacement rule stores the candidate fragments of one symbol and its
//! optional declared gender dependency.  The table and the memo of resolved
//! values are association vectors where the last binding for a name wins;
//! their mathematical readings are a last-match lookup and a fold of map
//! insertions.

use vstd::prelude::*;

use crate::chars::find_word_run_end;
use crate::chars::word_run_end;
use crate::chars::eq_chars;
use crate::gender::Gender;

verus! {

/// Mathematical reading of a replacement rule.
pub struct RuleV {
    pub dep: Option<Seq<char>>,
    pub cands: Seq<Seq<char>>,
}

/// One symbol's replacement rule: its optional gender dependency and its
/// candidate fragments, both already encoded by the escaping codec.
pub struct Rule {
    pub gender_dependency: Option<Vec<char>>,
    pub candidates: Vec<Vec<char>>,
}

impl View for Rule {
    type V = RuleV;

    open spec fn view(&self) -> RuleV {
        RuleV {
            dep: match self.gender_dependency {
                Some(d) => Some(d@),
                None => None,
            },
            cands: self.candidates.deep_view(),
        }
    }
}

/// Mathematical reading of a resolved value.
pub struct ResolvedV {
    pub content: Seq<char>,
    pub gender: Gender,
}

/// The value a symbol resolved to within one run: its fully expanded text
/// and the gender it carries for symbols that depend on it.
pub struct Resolved {
    pub content: Vec<char>,
    pub gender: Gender,
}

impl View for Resolved {
    type V = ResolvedV;

    open spec fn view(&self) -> ResolvedV {
        ResolvedV { content: self.content@, gender: self.gender }
    }
}

/// Reading of a table entry vector as a sequence of named rules.
pub open spec fn table_view(v: Seq<(Vec<char>, Rule)>) -> Seq<(Seq<char>, RuleV)> {
    v.map(|i: int, p: (Vec<char>, Rule)| (p.0@, p.1@))
}

/// Reading of a memo entry vector as a sequence of named resolved values.
pub open spec fn memo_view(v: Seq<(Vec<char>, Resolved)>) -> Seq<(Seq<char>, ResolvedV)> {
    v.map(|i: int, p: (Vec<char>, Resolved)| (p.0@, p.1@))
}

/// Reading of a recursion stack as a sequence of names.
pub open spec fn stack_view(v: Seq<Vec<char>>) -> Seq<Seq<char>> {
    v.map(|i: int, p: Vec<char>| p@)
}

/// Last-match lookup in an association sequence of rules.
pub open spec fn table_find(t: Seq<(Seq<char>, RuleV)>, k: Seq<char>) -> Option<RuleV>
    decreases t.len(),
{
    if t.len() == 0 {
        None
    } else if t.last().0 == k {
        Some(t.last().1)
    } else {
        table_find(t.drop_last(), k)
    }
}

/// The map an association sequence of resolved values denotes: later
/// bindings win.
pub open spec fn memo_map(m: Seq<(Seq<char>, ResolvedV)>) -> Map<Seq<char>, ResolvedV>
    decreases m.len(),
{
    if m.len() == 0 {
        Map::empty()
    } else {
        memo_map(m.drop_last()).insert(m.last().0, m.last().1)
    }
}

/// Looks a symbol up in the table: the last rule defined for it.
pub fn table_get<'a>(entries: &'a Vec<(Vec<char>, Rule)>, key: &Vec<char>) -> (o: Option<&'a Rule>)
    ensures
        match o {
            Some(r) => table_find(table_view(entries@), key@) == Some(r@),
            None => table_find(table_view(entries@), key@) is None,
        },
{
    let ghost tv = table_view(entries@);
    let mut i: usize = entries.len();
    proof {
        assert(tv.take(i as int) =~= tv);
    }
    while i > 0
        invariant
            i <= entries@.len(),
            tv == table_view(entries@),
            tv.len() == entries@.len(),
            table_find(tv, key@) == table_find(tv.take(i as int), key@),
        decreases i,
    {
        i = i - 1;
        if eq_chars(&entries[i].0, key) {
            proof {
                assert(tv.take(i + 1).last() == tv[i as int]);
                assert(tv[i as int].0 == entries@[i as int].0@);
                assert(table_find(tv.take(i + 1), key@) == Some(tv[i as int].1));
            }
            return Some(&entries[i].1);
        }
        proof {
            assert(tv.take(i + 1).last() == tv[i as int]);
            assert(tv.take(i + 1).drop_last() =~= tv.take(i as int));
        }
    }
    proof {
        assert(tv.take(0) =~= Seq::<(Seq<char>, RuleV)>::empty());
    }
    None
}

/// Looks a symbol up in the memo: the last value recorded for it.
pub fn memo_get<'a>(entries: &'a Vec<(Vec<char>, Resolved)>, key: &Vec<char>) -> (o: Option<
    &'a Resolved,
>)
    ensures
        match o {
            Some(r) => memo_map(memo_view(entries@)).contains_key(key@) && memo_map(
                memo_view(entries@),
            )[key@] == r@,
            None => !memo_map(memo_view(entries@)).contains_key(key@),
        },
{
    let ghost mv = memo_view(entries@);
    let mut i: usize = entries.len();
    proof {
        assert(mv.take(i as int) =~= mv);
    }
    while i > 0
        invariant
            i <= entries@.len(),
            mv == memo_view(entries@),
            mv.len() == entries@.len(),
            memo_map(mv).contains_key(key@) == memo_map(mv.take(i as int)).contains_key(key@),
            memo_map(mv).contains_key(key@) ==> memo_map(mv)[key@] == memo_map(
                mv.take(i as int),
            )[key@],
        decreases i,
    {
        i = i - 1;
        if eq_chars(&entries[i].0, key) {
            proof {
                assert(mv.take(i + 1).last() == mv[i as int]);
                assert(mv[i as int].0 == entries@[i as int].0@);
                assert(memo_map(mv.take(i + 1)).contains_key(key@));
                assert(memo_map(mv.take(i + 1))[key@] == mv[i as int].1);
            }
            return Some(&entries[i].1);
        }
        proof {
            assert(mv.take(i + 1).last() == mv[i as int]);
            assert(mv.take(i + 1).drop_last() =~= mv.take(i as int));
        }
    }
    proof {
        assert(mv.take(0) =~= Seq::<(Seq<char>, ResolvedV)>::empty());
        assert(!memo_map(mv.take(0)).contains_key(key@));
    }
    None
}

/// Records a resolved value: the new binding shadows any earlier one.
pub fn memo_insert(entries: &mut Vec<(Vec<char>, Resolved)>, key: Vec<char>, val: Resolved)
    ensures
        memo_map(memo_view(final(entries)@)) == memo_map(memo_view(old(entries)@)).insert(
            key@,
            val@,
        ),
{
    let ghost k = key@;
    let ghost v = val@;
    entries.push((key, val));
    proof {
        let m2 = memo_view(entries@);
        assert(m2.drop_last() =~= memo_view(old(entries)@));
        assert(m2.last() == (k, v));
    }
}

/// Is `sym` on the recursion stack?
pub fn stack_contains(stack: &Vec<Vec<char>>, sym: &Vec<char>) -> (b: bool)
    ensures
        b == stack_view(stack@).contains(sym@),
{
    let mut j: usize = 0;
    while j < stack.len()
        invariant
            j <= stack@.len(),
            forall|k: int| 0 <= k < j ==> stack@[k]@ != sym@,
        decreases stack@.len() - j,
    {
        if eq_chars(&stack[j], sym) {
            proof {
                assert(stack_view(stack@)[j as int] == sym@);
            }
            return true;
        }
        j = j + 1;
    }
    proof {
        assert forall|k: int| 0 <= k < stack_view(stack@).len() implies stack_view(stack@)[k]
            != sym@ by {
            assert(stack_view(stack@)[k] == stack@[k]@);
        }
    }
    false
}

/// A position where a symbol name splits into a base name and a declared
/// dependency: a `[` whose following run of word characters closes with `]`.
pub open spec fn dep_split_ok(s: Seq<char>, k: int) -> bool {
    &&& 0 <= k < s.len()
    &&& s[k] == '['
    &&& word_run_end(s, k + 1) < s.len()
    &&& s[word_run_end(s, k + 1)] == ']'
}

/// The rightmost split position at or below `k`, if any.
pub open spec fn find_dep_split(s: Seq<char>, k: int) -> Option<int>
    decreases k + 1,
{
    if k < 0 {
        None
    } else if dep_split_ok(s, k) {
        Some(k)
    } else {
        find_dep_split(s, k - 1)
    }
}

/// The base name a declared symbol keeps: everything before the rightmost
/// dependency suffix (text after the suffix is dropped).
pub open spec fn parse_name(s: Seq<char>) -> Seq<char> {
    match find_dep_split(s, s.len() - 1) {
        None => s,
        Some(k) => s.take(k),
    }
}

/// The declared dependency of a symbol name, if any.
pub open spec fn parse_dep(s: Seq<char>) -> Option<Seq<char>> {
    match find_dep_split(s, s.len() - 1) {
        None => None,
        Some(k) => Some(s.subrange(k + 1, word_run_end(s, k + 1))),
    }
}

/// Splits a declared symbol name into its base name and its optional
/// dependency.
pub fn split_dependency(s: &Vec<char>) -> (r: (Vec<char>, Option<Vec<char>>))
    ensures
        r.0@ == parse_name(s@),
        match (r.1, parse_dep(s@)) {
            (Some(d), Some(pd)) => d@ == pd,
            (None, None) => true,
            _ => false,
        },
{
    let mut k: usize = s.len();
    while k > 0
        invariant
            k <= s@.len(),
            find_dep_split(s@, s@.len() - 1) == find_dep_split(s@, k - 1),
        decreases k,
    {
        k = k - 1;
        if s[k] == '[' {
            let e = find_word_run_end(s, k + 1);
            if e < s.len() && s[e] == ']' {
                let name = crate::chars::copy_range(s, 0, k);
                let dep = crate::chars::copy_range(s, k + 1, e);
                proof {
                    assert(dep_split_ok(s@, k as int));
                    assert(find_dep_split(s@, k as int) == Some(k as int));
                    assert(s@.take(k as int) == s@.subrange(0, k as int));
                }
                return (name, Some(dep));
            }
        }
        proof {
            assert(!dep_split_ok(s@, k as int));
        }
    }
    proof {
        assert(find_dep_split(s@, -1) is None);
    }
    let name = crate::chars::copy_range(s, 0, s.len());
    proof {
        assert(name@ =~= s@);
    }
    (name, None)
}

} // verus!
