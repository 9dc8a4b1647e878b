//! The generator: the symbol table, its pre-seeded genders, and the two
//! instantiation entry points.
//!
//! `instantiate_from_seed` is deterministic: its result is pinned, via
//! [`crate::engine::spec_instantiate`], to a function of the table, the
//! pre-seeded genders, the symbol and the seed.  `instantiate` draws one
//! seed from process entropy and runs the same engine, so everything but
//! the seed is equally pinned.

use vstd::prelude::*;

use crate::chars::chars_to_string;
use crate::chars::str_to_chars;
use crate::codec::decode;
use crate::codec::decode_chars;
use crate::codec::encode;
use crate::codec::encode_chars;
use crate::engine::MemoV;
use crate::engine::TableV;
use crate::engine::spec_instantiate;
use crate::errors::GenError;
use crate::errors::SpecErr;
use crate::gender::Gender;
use crate::json::json_table_of;
use crate::json::parse_json_table;
use crate::resolver::budget_of;
use crate::resolver::clone_memo;
use crate::resolver::resolve_sym;
use crate::rng::SplitMix;
use crate::rng::entropy_seed;
use crate::table::Resolved;
use crate::table::ResolvedV;
use crate::table::Rule;
use crate::table::RuleV;
use crate::table::memo_map;
use crate::table::memo_view;
use crate::table::parse_dep;
use crate::table::parse_name;
use crate::table::split_dependency;
use crate::table::stack_view;
use crate::table::table_view;

verus! {

/// What `add_move` does to a table: encode the declared name, split off its
/// optional dependency, encode every candidate, and append the rule (a
/// later rule for the same name shadows an earlier one).
pub open spec fn add_move_spec(t: TableV, symbol: Seq<char>, content: Seq<Seq<char>>) -> TableV {
    let enc = encode(symbol, 0);
    t.push(
        (
            parse_name(enc),
            RuleV { dep: parse_dep(enc), cands: content.map(|i: int, c: Seq<char>| encode(c, 0)) },
        ),
    )
}

/// `add_move` folded over a sequence of name/candidates pairs, in order.
pub open spec fn add_all_spec(t: TableV, pairs: Seq<(Seq<char>, Seq<Seq<char>>)>) -> TableV
    decreases pairs.len(),
{
    if pairs.len() == 0 {
        t
    } else {
        add_all_spec(add_move_spec(t, pairs[0].0, pairs[0].1), pairs.drop_first())
    }
}

/// Does an instantiation result match the engine's denotation for this
/// seed?
pub open spec fn result_matches(
    t: TableV,
    pre: MemoV,
    sym: Seq<char>,
    seed: u64,
    r: Result<String, GenError>,
) -> bool {
    match (r, spec_instantiate(t, pre, sym, seed)) {
        (Ok(s), Ok(v)) => s@ == v,
        (Err(e), Err(v)) => e@ == v,
        _ => false,
    }
}

/// A grammar-driven text generator: replacement rules by symbol name, and
/// pre-seeded resolved values that fix a gender ahead of every run.
pub struct Generator {
    replacements: Vec<(Vec<char>, Rule)>,
    replaced: Vec<(Vec<char>, Resolved)>,
}

impl Generator {
    /// The rules the generator holds.
    pub closed spec fn table_v(&self) -> TableV {
        table_view(self.replacements@)
    }

    /// The pre-seeded resolved values every run starts from.
    pub closed spec fn pre_v(&self) -> MemoV {
        memo_map(memo_view(self.replaced@))
    }

    /// An empty generator: no rules, nothing pre-seeded.
    pub fn new() -> (g: Generator)
        ensures
            g.table_v() == Seq::<(Seq<char>, RuleV)>::empty(),
            g.pre_v() == Map::<Seq<char>, ResolvedV>::empty(),
    {
        let g = Generator { replacements: Vec::new(), replaced: Vec::new() };
        proof {
            assert(g.table_v() =~= Seq::<(Seq<char>, RuleV)>::empty());
        }
        g
    }

    /// Escapes a raw text: every `~`-escaped reserved character becomes its
    /// sentinel token.
    pub fn pre_process(s: String) -> (r: String)
        ensures
            r@ == encode(s@, 0),
    {
        let cs = str_to_chars(s.as_str());
        let e = encode_chars(&cs);
        chars_to_string(&e)
    }

    /// Replaces every sentinel token with the character it stands for.
    pub fn post_process(s: String) -> (r: String)
        ensures
            r@ == decode(s@, 0),
    {
        let cs = str_to_chars(s.as_str());
        let d = decode_chars(&cs);
        chars_to_string(&d)
    }

    /// Defines (or redefines) a symbol from owned parts.
    pub fn add_move(&mut self, symbol: String, content: Vec<String>) -> (r: Result<(), GenError>)
        ensures
            r is Ok,
            final(self).table_v() == add_move_spec(
                old(self).table_v(),
                symbol@,
                content.deep_view(),
            ),
            final(self).pre_v() == old(self).pre_v(),
    {
        let sym_chars = str_to_chars(symbol.as_str());
        let enc = encode_chars(&sym_chars);
        let (name, dep) = split_dependency(&enc);
        let mut cands: Vec<Vec<char>> = Vec::new();
        let mut i: usize = 0;
        while i < content.len()
            invariant
                i <= content@.len(),
                cands@.len() == i,
                forall|j: int| 0 <= j < i ==> cands@[j]@ == encode(content@[j]@, 0),
            decreases content@.len() - i,
        {
            let cs = str_to_chars(content[i].as_str());
            cands.push(encode_chars(&cs));
            i = i + 1;
        }
        let rule = Rule { gender_dependency: dep, candidates: cands };
        self.replacements.push((name, rule));
        proof {
            let t2 = table_view(self.replacements@);
            assert(t2.drop_last() =~= old(self).table_v());
            let pushed = t2.last();
            assert(pushed.0 == parse_name(encode(symbol@, 0)));
            assert(pushed.1.cands =~~= content.deep_view().map(
                |j: int, c: Seq<char>| encode(c, 0),
            ));
            assert(t2 =~~= add_move_spec(old(self).table_v(), symbol@, content.deep_view()));
        }
        Ok(())
    }

    /// Defines (or redefines) a symbol from borrowed parts.
    pub fn add(&mut self, symbol: &str, content: &[&str]) -> (r: Result<(), GenError>)
        ensures
            r is Ok,
            final(self).table_v() == add_move_spec(
                old(self).table_v(),
                symbol@,
                content@.map(|i: int, c: &str| c@),
            ),
            final(self).pre_v() == old(self).pre_v(),
    {
        let mut owned: Vec<String> = Vec::new();
        let mut i: usize = 0;
        while i < content.len()
            invariant
                i <= content@.len(),
                owned@.len() == i,
                forall|j: int| 0 <= j < i ==> owned@[j]@ == content@[j]@,
            decreases content@.len() - i,
        {
            owned.push(String::from_str(content[i]));
            i = i + 1;
        }
        let ghost owned_view = owned.deep_view();
        let r = self.add_move(String::from_str(symbol), owned);
        proof {
            assert(owned_view =~~= content@.map(|i: int, c: &str| c@));
        }
        r
    }

    /// Defines every symbol of a JSON object mapping names to candidate
    /// arrays; rejects text that is not such an object.
    pub fn add_json(&mut self, json: &str) -> (r: Result<(), GenError>)
        ensures
            match json_table_of(json@) {
                Some(pairs) => r is Ok && final(self).table_v() == add_all_spec(
                    old(self).table_v(),
                    pairs,
                ) && final(self).pre_v() == old(self).pre_v(),
                None => (match r {
                    Ok(_) => false,
                    Err(e) => e@ == SpecErr::BadTable,
                }) && final(self).table_v() == old(self).table_v() && final(self).pre_v() == old(
                    self,
                ).pre_v(),
            },
    {
        let mut pairs = match parse_json_table(json) {
            Err(_e) => {
                return Err(GenError::MalformedTable);
            },
            Ok(v) => v,
        };
        let ghost all = pairs.deep_view();
        let ghost t0 = self.table_v();
        while pairs.len() > 0
            invariant
                add_all_spec(t0, all) == add_all_spec(self.table_v(), pairs.deep_view()),
                self.pre_v() == old(self).pre_v(),
            decreases pairs@.len(),
        {
            let ghost before = pairs.deep_view();
            let ghost tb = self.table_v();
            let (k, v) = pairs.remove(0);
            proof {
                assert(pairs.deep_view() =~= before.drop_first());
                assert(before[0] == (k@, v.deep_view()));
            }
            let _ok = self.add_move(k, v);
            proof {
                assert(add_all_spec(tb, before) == add_all_spec(
                    self.table_v(),
                    pairs.deep_view(),
                ));
            }
        }
        proof {
            assert(pairs.deep_view() =~= Seq::<(Seq<char>, Seq<Seq<char>>)>::empty());
        }
        Ok(())
    }

    /// Pre-seeds a symbol with a fixed gender and empty content; the
    /// setting persists across runs until overwritten.
    pub fn set_gender(&mut self, symbol: &str, gender: Gender)
        ensures
            final(self).pre_v() == old(self).pre_v().insert(
                symbol@,
                ResolvedV { content: Seq::empty(), gender },
            ),
            final(self).table_v() == old(self).table_v(),
    {
        let sym = str_to_chars(symbol);
        self.replaced.push((sym, Resolved { content: Vec::new(), gender }));
        proof {
            let m2 = memo_view(self.replaced@);
            assert(m2.drop_last() =~= memo_view(old(self).replaced@));
            assert(m2.last() == (symbol@, ResolvedV { content: Seq::<char>::empty(), gender }));
        }
    }

    /// Instantiates a symbol deterministically: the same table, pre-seeded
    /// genders and seed give byte-identical output.
    pub fn instantiate_from_seed(&self, symbol: &str, seed: u64) -> (r: Result<String, GenError>)
        ensures
            result_matches(self.table_v(), self.pre_v(), symbol@, seed, r),
    {
        let sym = str_to_chars(symbol);
        let mut memo = clone_memo(&self.replaced);
        let mut stack: Vec<Vec<char>> = Vec::new();
        let mut r = SplitMix::from_seed(seed);
        let b = budget_of(&self.replacements);
        proof {
            assert(stack_view(stack@) =~= Seq::<Seq<char>>::empty());
        }
        match resolve_sym(&self.replacements, &self.replaced, &sym, &mut memo, &mut stack, &mut r, b, b) {
            Err(e) => Err(e),
            Ok(c) => {
                let d = decode_chars(&c);
                Ok(chars_to_string(&d))
            },
        }
    }

    /// Instantiates a symbol from one draw of process entropy: the result
    /// is the engine's output for some seed.
    pub fn instantiate(&self, symbol: &str) -> (r: Result<String, GenError>)
        ensures
            exists|seed: u64| #[trigger] result_matches(
                self.table_v(),
                self.pre_v(),
                symbol@,
                seed,
                r,
            ),
    {
        let seed = entropy_seed();
        let out = self.instantiate_from_seed(symbol, seed);
        proof {
            assert(result_matches(self.table_v(), self.pre_v(), symbol@, seed, out));
        }
        out
    }
}

} // verus!
