//! A directed dependency graph with cycle refusal at edge insertion.
//!
//! This is a free-standing alternative to the engine's recursion-stack
//! cycle detection: inserting an edge `from -> to` is refused when `from`
//! is already reachable from `to`.  The search is a depth-first walk with a
//! visited set, pinned exactly to [`spec_dfs`]; [`lemma_dfs_sound`] shows a
//! positive answer always names a real path.

use vstd::prelude::*;

use crate::chars::copy_range;
use crate::chars::eq_chars;
use crate::chars::str_to_chars;
use crate::chars::chars_to_string;
use crate::errors::GenError;
use crate::errors::SpecErr;
use crate::table::stack_view;
use crate::table::stack_contains;

verus! {

/// The adjacency map a graph denotes.
pub type GraphM = Map<Seq<char>, Seq<Seq<char>>>;

/// Reading of the entry vector as a sequence of named adjacency lists.
pub open spec fn adj_view(v: Seq<(Vec<char>, Vec<Vec<char>>)>) -> Seq<(Seq<char>, Seq<Seq<char>>)> {
    v.map(|i: int, p: (Vec<char>, Vec<Vec<char>>)| (p.0@, stack_view(p.1@)))
}

/// The map an association sequence denotes: later bindings win.
pub open spec fn graph_map(s: Seq<(Seq<char>, Seq<Seq<char>>)>) -> GraphM
    decreases s.len(),
{
    if s.len() == 0 {
        Map::empty()
    } else {
        graph_map(s.drop_last()).insert(s.last().0, s.last().1)
    }
}

/// One recorded edge.
pub open spec fn edge(g: GraphM, a: Seq<char>, b: Seq<char>) -> bool {
    g.contains_key(a) && g[a].contains(b)
}

/// A path of at most `n + 1` edges.
pub open spec fn reachable(g: GraphM, a: Seq<char>, b: Seq<char>, n: nat) -> bool
    decreases n,
{
    edge(g, a, b) || (n > 0 && exists|x: Seq<char>|
        edge(g, a, x) && reachable(g, x, b, (n - 1) as nat))
}

/// A path of any length.
pub open spec fn reaches(g: GraphM, a: Seq<char>, b: Seq<char>) -> bool {
    exists|n: nat| reachable(g, a, b, n)
}

/// What inserting an edge does to the map (a duplicate edge changes
/// nothing).
pub open spec fn add_edge_spec(g: GraphM, from: Seq<char>, to: Seq<char>) -> GraphM {
    if g.contains_key(from) {
        if g[from].contains(to) {
            g
        } else {
            g.insert(from, g[from].push(to))
        }
    } else {
        g.insert(from, seq![to])
    }
}

/// The depth-first walk: visit `cur` unless already visited or out of
/// fuel, then search its adjacency list.  Returns whether `target` was
/// found and the visited set afterwards.
pub open spec fn spec_dfs(
    g: GraphM,
    cur: Seq<char>,
    target: Seq<char>,
    visited: Seq<Seq<char>>,
    fuel: nat,
) -> (bool, Seq<Seq<char>>)
    decreases fuel, 0int, 0int,
{
    if visited.contains(cur) {
        (false, visited)
    } else if fuel == 0 {
        (false, visited)
    } else {
        let v2 = visited.push(cur);
        if g.contains_key(cur) {
            spec_dfs_list(g, g[cur], 0, target, v2, (fuel - 1) as nat)
        } else {
            (false, v2)
        }
    }
}

/// The walk over one adjacency list from index `i` on.
pub open spec fn spec_dfs_list(
    g: GraphM,
    items: Seq<Seq<char>>,
    i: int,
    target: Seq<char>,
    visited: Seq<Seq<char>>,
    fuel: nat,
) -> (bool, Seq<Seq<char>>)
    decreases fuel, 1int, items.len() - i,
{
    if !(0 <= i < items.len()) {
        (false, visited)
    } else if items[i] == target {
        (true, visited)
    } else {
        let r = spec_dfs(g, items[i], target, visited, fuel);
        if r.0 {
            (true, r.1)
        } else {
            spec_dfs_list(g, items, i + 1, target, r.1, fuel)
        }
    }
}

/// The search budget: more than the graph can need.
pub open spec fn search_budget(s: Seq<(Seq<char>, Seq<Seq<char>>)>) -> nat {
    if s.len() < 0xFFFFFFFF {
        s.len() + 2
    } else {
        0xFFFFFFFF as nat
    }
}

/// A path found through one adjacency step extends to the step's source.
proof fn lemma_reaches_step(g: GraphM, a: Seq<char>, x: Seq<char>, b: Seq<char>)
    requires
        edge(g, a, x),
        reaches(g, x, b),
    ensures
        reaches(g, a, b),
{
    let n = choose|n: nat| reachable(g, x, b, n);
    assert(reachable(g, a, b, n + 1));
}

/// Soundness of the walk: a positive answer names a real path.
pub proof fn lemma_dfs_sound(
    g: GraphM,
    cur: Seq<char>,
    target: Seq<char>,
    visited: Seq<Seq<char>>,
    fuel: nat,
)
    ensures
        spec_dfs(g, cur, target, visited, fuel).0 ==> reaches(g, cur, target),
    decreases fuel, 0int, 0int,
{
    if !visited.contains(cur) && fuel > 0 && g.contains_key(cur) {
        lemma_dfs_list_sound(g, cur, g[cur], 0, target, visited.push(cur), (fuel - 1) as nat);
    }
}

proof fn lemma_dfs_list_sound(
    g: GraphM,
    a: Seq<char>,
    items: Seq<Seq<char>>,
    i: int,
    target: Seq<char>,
    visited: Seq<Seq<char>>,
    fuel: nat,
)
    requires
        g.contains_key(a),
        items == g[a],
    ensures
        spec_dfs_list(g, items, i, target, visited, fuel).0 ==> reaches(g, a, target),
    decreases fuel, 1int, items.len() - i,
{
    if 0 <= i < items.len() {
        if items[i] == target {
            assert(edge(g, a, target));
            assert(reachable(g, a, target, 0));
        } else {
            let r = spec_dfs(g, items[i], target, visited, fuel);
            if r.0 {
                lemma_dfs_sound(g, items[i], target, visited, fuel);
                assert(edge(g, a, items[i]));
                if reaches(g, items[i], target) {
                    lemma_reaches_step(g, a, items[i], target);
                }
            } else {
                lemma_dfs_list_sound(g, a, items, i + 1, target, r.1, fuel);
            }
        }
    }
}

/// Looks a node's adjacency list up: the last binding for the name.
fn adj_get<'a>(entries: &'a Vec<(Vec<char>, Vec<Vec<char>>)>, key: &Vec<char>) -> (o: Option<
    &'a Vec<Vec<char>>,
>)
    ensures
        match o {
            Some(r) => graph_map(adj_view(entries@)).contains_key(key@) && graph_map(
                adj_view(entries@),
            )[key@] == stack_view(r@),
            None => !graph_map(adj_view(entries@)).contains_key(key@),
        },
{
    let ghost gv = adj_view(entries@);
    let mut i: usize = entries.len();
    proof {
        assert(gv.take(i as int) =~= gv);
    }
    while i > 0
        invariant
            i <= entries@.len(),
            gv == adj_view(entries@),
            gv.len() == entries@.len(),
            graph_map(gv).contains_key(key@) == graph_map(gv.take(i as int)).contains_key(key@),
            graph_map(gv).contains_key(key@) ==> graph_map(gv)[key@] == graph_map(
                gv.take(i as int),
            )[key@],
        decreases i,
    {
        i = i - 1;
        if eq_chars(&entries[i].0, key) {
            proof {
                assert(gv.take(i + 1).last() == gv[i as int]);
                assert(gv[i as int].0 == entries@[i as int].0@);
                assert(graph_map(gv.take(i + 1)).contains_key(key@));
                assert(graph_map(gv.take(i + 1))[key@] == gv[i as int].1);
            }
            return Some(&entries[i].1);
        }
        proof {
            assert(gv.take(i + 1).last() == gv[i as int]);
            assert(gv.take(i + 1).drop_last() =~= gv.take(i as int));
        }
    }
    proof {
        assert(gv.take(0) =~= Seq::<(Seq<char>, Seq<Seq<char>>)>::empty());
        assert(!graph_map(gv.take(0)).contains_key(key@));
    }
    None
}

/// Copies an adjacency list.
fn clone_list(v: &Vec<Vec<char>>) -> (out: Vec<Vec<char>>)
    ensures
        stack_view(out@) == stack_view(v@),
{
    let mut out: Vec<Vec<char>> = Vec::new();
    let mut i: usize = 0;
    while i < v.len()
        invariant
            i <= v@.len(),
            out@.len() == i,
            forall|k: int| 0 <= k < i ==> out@[k]@ == v@[k]@,
        decreases v@.len() - i,
    {
        out.push(copy_range(&v[i], 0, v[i].len()));
        proof {
            assert(out@[i as int]@ =~= v@[i as int]@);
        }
        i = i + 1;
    }
    proof {
        assert(stack_view(out@) =~= stack_view(v@));
    }
    out
}

/// Exec mirror of [`spec_dfs`].
fn dfs(
    g: &Vec<(Vec<char>, Vec<Vec<char>>)>,
    cur: &Vec<char>,
    target: &Vec<char>,
    visited: &mut Vec<Vec<char>>,
    fuel: u64,
) -> (found: bool)
    ensures
        ({
            let r = spec_dfs(
                graph_map(adj_view(g@)),
                cur@,
                target@,
                stack_view(old(visited)@),
                fuel as nat,
            );
            found == r.0 && stack_view(final(visited)@) == r.1
        }),
    decreases fuel, 0int, 0int,
{
    if stack_contains(visited, cur) {
        return false;
    }
    if fuel == 0 {
        return false;
    }
    let c2 = copy_range(cur, 0, cur.len());
    proof {
        assert(c2@ =~= cur@);
    }
    visited.push(c2);
    proof {
        assert(stack_view(visited@) =~= stack_view(old(visited)@).push(cur@));
    }
    match adj_get(g, cur) {
        None => false,
        Some(items) => dfs_list(g, items, 0, target, visited, fuel - 1),
    }
}

/// Exec mirror of [`spec_dfs_list`].
fn dfs_list(
    g: &Vec<(Vec<char>, Vec<Vec<char>>)>,
    items: &Vec<Vec<char>>,
    i: usize,
    target: &Vec<char>,
    visited: &mut Vec<Vec<char>>,
    fuel: u64,
) -> (found: bool)
    ensures
        ({
            let r = spec_dfs_list(
                graph_map(adj_view(g@)),
                stack_view(items@),
                i as int,
                target@,
                stack_view(old(visited)@),
                fuel as nat,
            );
            found == r.0 && stack_view(final(visited)@) == r.1
        }),
    decreases fuel, 1int, items@.len() - i,
{
    if i >= items.len() {
        return false;
    }
    if eq_chars(&items[i], target) {
        proof {
            assert(stack_view(items@)[i as int] == target@);
        }
        return true;
    }
    proof {
        assert(stack_view(items@)[i as int] == items@[i as int]@);
    }
    if dfs(g, &items[i], target, visited, fuel) {
        true
    } else {
        dfs_list(g, items, i + 1, target, visited, fuel)
    }
}

/// A dependency graph.
pub struct Graph {
    graph: Vec<(Vec<char>, Vec<Vec<char>>)>,
}

impl Graph {
    /// The adjacency map the graph holds.
    pub closed spec fn gm(&self) -> GraphM {
        graph_map(adj_view(self.graph@))
    }

    /// The search budget the graph's walks run under.
    pub closed spec fn budget(&self) -> nat {
        search_budget(adj_view(self.graph@))
    }

    /// An empty graph.
    pub fn new() -> (g: Graph)
        ensures
            g.gm() == Map::<Seq<char>, Seq<Seq<char>>>::empty(),
    {
        let g = Graph { graph: Vec::new() };
        proof {
            assert(adj_view(g.graph@) =~= Seq::<(Seq<char>, Seq<Seq<char>>)>::empty());
        }
        g
    }

    /// Is `to` reachable from `from` through at least one edge?  The
    /// answer is exactly the depth-first walk's, and a positive one names
    /// a real path ([`lemma_dfs_sound`]).
    pub fn has_indirect_dependency(&self, from: &str, to: &str) -> (b: bool)
        ensures
            b == spec_dfs(self.gm(), from@, to@, Seq::<Seq<char>>::empty(), self.budget()).0,
            b ==> reaches(self.gm(), from@, to@),
    {
        let from_c = str_to_chars(from);
        let to_c = str_to_chars(to);
        let mut visited: Vec<Vec<char>> = Vec::new();
        let l = self.graph.len();
        let fuel: u64 = if l < 0xFFFFFFFFusize {
            (l as u64) + 2
        } else {
            0xFFFFFFFF
        };
        proof {
            assert(stack_view(visited@) =~= Seq::<Seq<char>>::empty());
        }
        let b = dfs(&self.graph, &from_c, &to_c, &mut visited, fuel);
        proof {
            lemma_dfs_sound(self.gm(), from@, to@, Seq::<Seq<char>>::empty(), self.budget());
        }
        b
    }

    /// Records the edge `from -> to`; refuses it (after recording) when
    /// `from` is already reachable from `to`, which would close a cycle.
    /// A duplicate edge changes nothing and is accepted.
    pub fn add_dependency(&mut self, from: &str, to: &str) -> (r: Result<(), GenError>)
        ensures
            final(self).gm() == add_edge_spec(old(self).gm(), from@, to@),
            (r is Err) == (!edge(old(self).gm(), from@, to@) && spec_dfs(
                final(self).gm(),
                to@,
                from@,
                Seq::<Seq<char>>::empty(),
                final(self).budget(),
            ).0),
            match r {
                Ok(_) => true,
                Err(e) => e@ == SpecErr::Cyclic(from@),
            },
    {
        let from_c = str_to_chars(from);
        let to_c = str_to_chars(to);
        let dup: bool = match adj_get(&self.graph, &from_c) {
            Some(items) => {
                if stack_contains(items, &to_c) {
                    true
                } else {
                    let mut nl = clone_list(items);
                    let t2 = copy_range(&to_c, 0, to_c.len());
                    proof {
                        assert(t2@ =~= to@);
                    }
                    nl.push(t2);
                    proof {
                        assert(stack_view(nl@) =~= old(self).gm()[from@].push(to@));
                    }
                    let key = copy_range(&from_c, 0, from_c.len());
                    proof {
                        assert(key@ =~= from@);
                    }
                    self.graph.push((key, nl));
                    false
                }
            },
            None => {
                let mut nl: Vec<Vec<char>> = Vec::new();
                let t2 = copy_range(&to_c, 0, to_c.len());
                proof {
                    assert(t2@ =~= to@);
                }
                nl.push(t2);
                proof {
                    assert(stack_view(nl@) =~= seq![to@]);
                }
                let key = copy_range(&from_c, 0, from_c.len());
                proof {
                    assert(key@ =~= from@);
                }
                self.graph.push((key, nl));
                false
            },
        };
        proof {
            if !dup {
                let av = adj_view(self.graph@);
                assert(av.drop_last() =~= adj_view(old(self).graph@));
                assert(av.last().0 == from@);
            }
            assert(self.gm() =~= add_edge_spec(old(self).gm(), from@, to@));
        }
        if dup {
            return Ok(());
        }
        let mut visited: Vec<Vec<char>> = Vec::new();
        let l = self.graph.len();
        let fuel: u64 = if l < 0xFFFFFFFFusize {
            (l as u64) + 2
        } else {
            0xFFFFFFFF
        };
        proof {
            assert(stack_view(visited@) =~= Seq::<Seq<char>>::empty());
        }
        if dfs(&self.graph, &to_c, &from_c, &mut visited, fuel) {
            Err(GenError::CyclicDependency(chars_to_string(&from_c)))
        } else {
            Ok(())
        }
    }
}

} // verus!
