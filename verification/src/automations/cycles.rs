//! Cycles in a graph, and what lies upstream or downstream of a block.

use vstd::prelude::*;

use crate::automations::graph;
use crate::automations::graph::{acyclic, arcs_of, bounded_below, ids_of, is_walk, leads, linked, ranks, reaches, Arc};
use crate::automations::types::{AutomationEdge, AutomationNode};
use crate::dup::Dup;
use crate::lists;
use crate::table;
use crate::table::Table;
use crate::text::same;

verus! {

/// A block on the path that is being followed.
pub const ON_PATH: u8 = 1;

/// A block from which everything has been followed.
pub const DONE: u8 = 2;

/// The state of a search for cycles: `path` is being followed, and the blocks
/// of `done` lead only to blocks that were done before them.
pub open spec fn searching(
    arcs: Seq<Arc>,
    marks: Seq<(Seq<char>, u8)>,
    path: Seq<Seq<char>>,
    done: Seq<Seq<char>>,
) -> bool {
    &&& forall|k: Seq<char>| #[trigger] path.contains(k) <==> table::lookup(marks, k) == Some(ON_PATH)
    &&& forall|k: Seq<char>| #[trigger] done.contains(k) <==> table::lookup(marks, k) == Some(DONE)
    &&& forall|k: Seq<char>| #[trigger] table::has_key(marks, k) ==> path.contains(k) || done.contains(k)
    &&& forall|i: int| 0 <= i < path.len() - 1 ==> linked(arcs, #[trigger] path[i], path[i + 1])
    &&& forall|j: int, m: int|
        0 <= j < done.len() && 0 <= m < arcs.len() && (#[trigger] arcs[m]).0 == #[trigger] done[j] ==> done.take(
            j,
        ).contains(arcs[m].1)
}

/// How many of the first `n` arcs lead to a block that is neither marked nor
/// `node`.
pub open spec fn unseen(arcs: Seq<Arc>, marks: Seq<(Seq<char>, u8)>, node: Seq<char>, n: int) -> nat
    decreases n,
{
    if n <= 0 {
        0
    } else {
        unseen(arcs, marks, node, n - 1) + (if !table::has_key(marks, arcs[n - 1].1) && arcs[n - 1].1 != node {
            1nat
        } else {
            0nat
        })
    }
}

proof fn fewer_unseen(
    arcs: Seq<Arc>,
    marks: Seq<(Seq<char>, u8)>,
    node: Seq<char>,
    marks2: Seq<(Seq<char>, u8)>,
    i: int,
    n: int,
)
    requires
        0 <= i < arcs.len(),
        0 <= n <= arcs.len(),
        forall|k: Seq<char>| #[trigger] table::has_key(marks, k) ==> table::has_key(marks2, k),
        table::has_key(marks2, node),
        !table::has_key(marks2, arcs[i].1),
    ensures
        unseen(arcs, marks2, arcs[i].1, n) + (if i < n {
            1nat
        } else {
            0nat
        }) <= unseen(arcs, marks, node, n),
    decreases n,
{
    if n > 0 {
        fewer_unseen(arcs, marks, node, marks2, i, n - 1);
        let t = arcs[n - 1].1;
        assert(table::has_key(marks, t) || t == node ==> table::has_key(marks2, t));
    }
}

/// A walk leads from `node` to a block that leads back to itself.
pub open spec fn meets_cycle(arcs: Seq<Arc>, node: Seq<char>) -> bool {
    exists|k: Seq<char>| #[trigger] leads(arcs, k, k) && reaches(arcs, node, k)
}

proof fn path_closes(arcs: Seq<Arc>, path: Seq<Seq<char>>, m: int)
    requires
        forall|i: int| 0 <= i < path.len() - 1 ==> linked(arcs, #[trigger] path[i], path[i + 1]),
        path.len() > 0,
        0 <= m < arcs.len(),
        arcs[m].0 == path.last(),
        path.contains(arcs[m].1),
    ensures
        meets_cycle(arcs, path[0]),
{
    let k = arcs[m].1;
    let a = choose|a: int| 0 <= a < path.len() && path[a] == k;
    let there = path.take(a + 1);
    assert forall|i: int| 0 <= i < there.len() - 1 implies linked(arcs, #[trigger] there[i], there[i + 1]) by {
        assert(linked(arcs, path[i], path[i + 1]));
    }
    assert(is_walk(arcs, there));
    assert(reaches(arcs, path[0], k));
    let round = path.subrange(a, path.len() as int).push(k);
    assert forall|i: int| 0 <= i < round.len() - 1 implies linked(arcs, #[trigger] round[i], round[i + 1]) by {
        if i < round.len() - 2 {
            assert(linked(arcs, path[a + i], path[a + i + 1]));
        } else {
            assert(arcs[m] == (path.last(), k));
        }
    }
    assert(is_walk(arcs, round));
    assert(round[0] == k && round.last() == k);
    assert(leads(arcs, k, k));
}

proof fn walk_goes_down(arcs: Seq<Arc>, done: Seq<Seq<char>>, walk: Seq<Seq<char>>, n: int)
    requires
        forall|j: int, m: int|
            0 <= j < done.len() && 0 <= m < arcs.len() && (#[trigger] arcs[m]).0 == #[trigger] done[j] ==> done.take(
                j,
            ).contains(arcs[m].1),
        is_walk(arcs, walk),
        done.contains(walk[0]),
        0 <= n < walk.len(),
    ensures
        done.contains(walk[n]),
        done.index_of_first(walk[n])->0 + n <= done.index_of_first(walk[0])->0,
    decreases n,
{
    if n > 0 {
        walk_goes_down(arcs, done, walk, n - 1);
        assert(linked(arcs, walk[n - 1], walk[n - 1 + 1]));
        let m = choose|m: int| 0 <= m < arcs.len() && arcs[m] == (walk[n - 1], walk[n]);
        done.index_of_first_ensures(walk[n - 1]);
        let j = done.index_of_first(walk[n - 1])->0;
        assert(arcs[m].0 == done[j]);
        let a = choose|a: int| 0 <= a < j && done.take(j)[a] == arcs[m].1;
        assert(done[a] == walk[n]);
        done.index_of_first_ensures(walk[n]);
        let b = done.index_of_first(walk[n])->0;
        if b > a {
            assert(done[a] != walk[n]);
        }
    }
}

/// What is done leads only to what is done, and none of it lies on a cycle.
proof fn done_is_closed(arcs: Seq<Arc>, done: Seq<Seq<char>>, node: Seq<char>)
    requires
        forall|j: int, m: int|
            0 <= j < done.len() && 0 <= m < arcs.len() && (#[trigger] arcs[m]).0 == #[trigger] done[j] ==> done.take(
                j,
            ).contains(arcs[m].1),
        done.contains(node),
    ensures
        forall|k: Seq<char>| #[trigger] reaches(arcs, node, k) ==> done.contains(k),
        !meets_cycle(arcs, node),
{
    assert forall|k: Seq<char>| #[trigger] reaches(arcs, node, k) implies done.contains(k) by {
        let walk = choose|walk: Seq<Seq<char>>| #[trigger] is_walk(arcs, walk) && walk[0] == node && walk.last() == k;
        walk_goes_down(arcs, done, walk, walk.len() - 1);
    }
    if meets_cycle(arcs, node) {
        let k = choose|k: Seq<char>| #[trigger] leads(arcs, k, k) && reaches(arcs, node, k);
        let walk = choose|walk: Seq<Seq<char>>| #[trigger]
            is_walk(arcs, walk) && walk.len() >= 2 && walk[0] == k && walk.last() == k;
        assert(done.contains(k));
        walk_goes_down(arcs, done, walk, walk.len() - 1);
    }
}

fn follow(
    node: &str,
    edges: &Vec<AutomationEdge>,
    marks: &mut Table<u8>,
    Ghost(path): Ghost<Seq<Seq<char>>>,
    Ghost(done): Ghost<Seq<Seq<char>>>,
) -> (r: (bool, Ghost<Seq<Seq<char>>>))
    requires
        searching(arcs_of(edges.deep_view()), old(marks).deep_view(), path, done),
        path.len() > 0 ==> linked(arcs_of(edges.deep_view()), path.last(), node@),
        !table::has_key(old(marks).deep_view(), node@),
    ensures
        r.0 ==> meets_cycle(arcs_of(edges.deep_view()), path.push(node@)[0]),
        !r.0 ==> searching(arcs_of(edges.deep_view()), final(marks).deep_view(), path, r.1@) && r.1@.contains(node@)
            && (forall|k: Seq<char>| #[trigger] done.contains(k) ==> r.1@.contains(k)) && (forall|k: Seq<char>| #[trigger]
            r.1@.contains(k) ==> done.contains(k) || reaches(arcs_of(edges.deep_view()), node@, k)),
    decreases unseen(arcs_of(edges.deep_view()), old(marks).deep_view(), node@, edges@.len() as int),
{
    let ghost arcs = arcs_of(edges.deep_view());
    let ghost marks0 = marks.deep_view();
    let ghost path1 = path.push(node@);
    let ghost mut done1 = done;
    marks.insert(node.to_owned(), ON_PATH);
    proof {
        let marks1 = marks.deep_view();
        assert(marks1 == table::put(marks0, node@, ON_PATH));
        assert forall|k: Seq<char>| #[trigger] path1.contains(k) <==> table::lookup(marks1, k) == Some(ON_PATH) by {
            table::put_then_lookup(marks0, node@, ON_PATH, k);
            assert(path.contains(k) <==> table::lookup(marks0, k) == Some(ON_PATH));
            if k == node@ {
                assert(path1[path.len() as int] == k);
            } else {
                if path.contains(k) {
                    let a = choose|a: int| 0 <= a < path.len() && path[a] == k;
                    assert(path1[a] == k);
                }
                if path1.contains(k) {
                    let a = choose|a: int| 0 <= a < path1.len() && path1[a] == k;
                    assert(path[a] == k);
                }
            }
        }
        assert forall|k: Seq<char>| #[trigger] done.contains(k) <==> table::lookup(marks1, k) == Some(DONE) by {
            table::put_then_lookup(marks0, node@, ON_PATH, k);
        }
        assert forall|k: Seq<char>| #[trigger] table::has_key(marks1, k) implies path1.contains(k) || done.contains(k) by {
            table::put_adds_key(marks0, node@, ON_PATH, k);
            if k == node@ {
                assert(path1[path.len() as int] == k);
            } else if path.contains(k) {
                let a = choose|a: int| 0 <= a < path.len() && path[a] == k;
                assert(path1[a] == k);
            }
        }
        assert forall|i: int| 0 <= i < path1.len() - 1 implies linked(arcs, #[trigger] path1[i], path1[i + 1]) by {
            if i < path.len() - 1 {
                assert(linked(arcs, path[i], path[i + 1]));
            }
        }
        assert(searching(arcs, marks1, path1, done));
        assert forall|k: Seq<char>| #[trigger] table::has_key(marks0, k) implies table::has_key(marks1, k) by {
            table::put_adds_key(marks0, node@, ON_PATH, k);
        }
        table::put_adds_key(marks0, node@, ON_PATH, node@);
    }
    let mut i: usize = 0;
    while i < edges.len()
        invariant
            i <= edges@.len(),
            arcs == arcs_of(edges.deep_view()),
            path1 == path.push(node@),
            searching(arcs, marks.deep_view(), path1, done1),
            forall|k: Seq<char>| #[trigger] table::has_key(marks0, k) ==> table::has_key(marks.deep_view(), k),
            table::has_key(marks.deep_view(), node@),
            forall|k: Seq<char>| #[trigger] done.contains(k) ==> done1.contains(k),
            forall|k: Seq<char>| #[trigger] done1.contains(k) ==> done.contains(k) || reaches(arcs, node@, k),
            forall|m: int| 0 <= m < i && (#[trigger] arcs[m]).0 == node@ ==> done1.contains(arcs[m].1),
            marks0 == old(marks).deep_view(),
        decreases edges@.len() - i,
    {
        proof {
            assert(arcs[i as int] == (edges@[i as int].source_node@, edges@[i as int].target_node@));
        }
        if same(edges[i].source_node.as_str(), node) {
            let next = edges[i].target_node.as_str();
            let mark: Option<u8> = match marks.get(next) {
                Some(m) => Some(*m),
                None => None,
            };
            match mark {
                Some(1) => {
                    proof {
                        assert(path1.contains(next@));
                        path_closes(arcs, path1, i as int);
                    }
                    return (true, Ghost(done1));
                },
                Some(_) => {
                    proof {
                        assert(table::has_key(marks.deep_view(), next@));
                        assert(done1.contains(next@));
                    }
                },
                None => {
                    proof {
                        assert(arcs[i as int] == (path1.last(), next@));
                        fewer_unseen(arcs, marks0, node@, marks.deep_view(), i as int, edges@.len() as int);
                    }
                    let ghost marks2 = marks.deep_view();
                    let ghost done2 = done1;
                    let (found, Ghost(done3)) = follow(next, edges, marks, Ghost(path1), Ghost(done1));
                    if found {
                        proof {
                            assert(path1.push(next@)[0] == path1[0]);
                        }
                        return (true, Ghost(done1));
                    }
                    proof {
                        done1 = done3;
                        assert(linked(arcs, node@, next@));
                        assert forall|k: Seq<char>| #[trigger] done3.contains(k) implies done.contains(k) || reaches(
                            arcs,
                            node@,
                            k,
                        ) by {
                            if !done2.contains(k) {
                                extend_front(arcs, node@, next@, k);
                            }
                        }
                        assert forall|k: Seq<char>| #[trigger] table::has_key(marks2, k) implies table::has_key(
                            marks.deep_view(),
                            k,
                        ) by {
                            assert(path1.contains(k) || done2.contains(k));
                            assert(path1.contains(k) <==> table::lookup(marks.deep_view(), k) == Some(ON_PATH));
                            assert(done3.contains(k) <==> table::lookup(marks.deep_view(), k) == Some(DONE));
                        }
                    }
                },
            }
        }
        i = i + 1;
    }
    let ghost marks3 = marks.deep_view();
    marks.insert(node.to_owned(), DONE);
    let ghost done4 = done1.push(node@);
    proof {
        let marks4 = marks.deep_view();
        assert(!path.contains(node@)) by {
            assert(path.contains(node@) <==> table::lookup(marks0, node@) == Some(ON_PATH));
        }
        assert forall|k: Seq<char>| #[trigger] path.contains(k) <==> table::lookup(marks4, k) == Some(ON_PATH) by {
            table::put_then_lookup(marks3, node@, DONE, k);
            assert(path1.contains(k) <==> table::lookup(marks3, k) == Some(ON_PATH));
            if path.contains(k) {
                let a = choose|a: int| 0 <= a < path.len() && path[a] == k;
                assert(path1[a] == k);
            }
            if path1.contains(k) && k != node@ {
                let a = choose|a: int| 0 <= a < path1.len() && path1[a] == k;
                assert(path[a] == k);
            }
        }
        assert forall|k: Seq<char>| #[trigger] done4.contains(k) <==> table::lookup(marks4, k) == Some(DONE) by {
            table::put_then_lookup(marks3, node@, DONE, k);
            assert(done1.contains(k) <==> table::lookup(marks3, k) == Some(DONE));
            if k == node@ {
                assert(done4[done1.len() as int] == k);
            } else {
                if done1.contains(k) {
                    let a = choose|a: int| 0 <= a < done1.len() && done1[a] == k;
                    assert(done4[a] == k);
                }
                if done4.contains(k) {
                    let a = choose|a: int| 0 <= a < done4.len() && done4[a] == k;
                    assert(done1[a] == k);
                }
            }
        }
        assert forall|k: Seq<char>| #[trigger] table::has_key(marks4, k) implies path.contains(k) || done4.contains(k) by {
            table::put_adds_key(marks3, node@, DONE, k);
            if k == node@ {
                assert(done4[done1.len() as int] == k);
            } else {
                assert(path1.contains(k) || done1.contains(k));
                if done1.contains(k) {
                    let a = choose|a: int| 0 <= a < done1.len() && done1[a] == k;
                    assert(done4[a] == k);
                } else {
                    let a = choose|a: int| 0 <= a < path1.len() && path1[a] == k;
                    assert(path[a] == k);
                }
            }
        }
        assert forall|i: int| 0 <= i < path.len() - 1 implies linked(arcs, #[trigger] path[i], path[i + 1]) by {
            assert(linked(arcs, path1[i], path1[i + 1]));
        }
        assert forall|j: int, m: int|
            0 <= j < done4.len() && 0 <= m < arcs.len() && (#[trigger] arcs[m]).0 == #[trigger] done4[j] implies done4.take(
            j,
        ).contains(arcs[m].1) by {
            assert(done4.take(j) =~= done1.take(j));
            if j < done1.len() {
                assert(done1[j] == arcs[m].0);
            } else {
                assert(done1.take(j) =~= done1);
            }
        }
        assert(done4[done1.len() as int] == node@);
        assert forall|k: Seq<char>| #[trigger] done.contains(k) implies done4.contains(k) by {
            let a = choose|a: int| 0 <= a < done1.len() && done1[a] == k;
            assert(done4[a] == k);
        }
        assert forall|k: Seq<char>| #[trigger] done4.contains(k) implies done.contains(k) || reaches(arcs, node@, k) by {
            let a = choose|a: int| 0 <= a < done4.len() && done4[a] == k;
            if a < done1.len() {
                assert(done1[a] == k);
                assert(done1.contains(k));
            } else {
                assert(is_walk(arcs, seq![node@]));
                assert(seq![node@][0] == node@ && seq![node@].last() == node@);
            }
        }
    }
    (false, Ghost(done4))
}

/// Follows everything that lies downstream of `node`, which is not marked yet,
/// and says whether a cycle lies there. If none does, the blocks to which
/// `node` leads, itself among them, are marked as done. The marks are those
/// that an earlier search, or none, has left.
pub fn has_cycle_dfs(node: &str, edges: &Vec<AutomationEdge>, marks: &mut Table<u8>) -> (r: bool)
    requires
        exists|done: Seq<Seq<char>>| #[trigger]
            searching(arcs_of(edges.deep_view()), old(marks).deep_view(), Seq::empty(), done),
        !table::has_key(old(marks).deep_view(), node@),
    ensures
        r <==> meets_cycle(arcs_of(edges.deep_view()), node@),
        !r ==> forall|k: Seq<char>| #[trigger]
            table::has_key(final(marks).deep_view(), k) <==> table::has_key(old(marks).deep_view(), k) || reaches(
                arcs_of(edges.deep_view()),
                node@,
                k,
            ),
        !r ==> forall|k: Seq<char>| #[trigger]
            table::has_key(final(marks).deep_view(), k) ==> table::lookup(final(marks).deep_view(), k) == Some(DONE),
        !r ==> exists|done: Seq<Seq<char>>| #[trigger]
            searching(arcs_of(edges.deep_view()), final(marks).deep_view(), Seq::empty(), done),
{
    let ghost marks0 = marks.deep_view();
    let ghost arcs = arcs_of(edges.deep_view());
    let ghost none = Seq::<Seq<char>>::empty();
    let ghost done = choose|done: Seq<Seq<char>>| #[trigger] searching(arcs, marks0, none, done);
    let (found, Ghost(after)) = follow(node, edges, marks, Ghost(Seq::empty()), Ghost(done));
    proof {
        if !found {
            let marks1 = marks.deep_view();
            done_is_closed(arcs, after, node@);
            assert forall|k: Seq<char>| #[trigger] table::has_key(marks1, k) implies table::lookup(marks1, k) == Some(
                DONE,
            ) by {
                assert(none.contains(k) || after.contains(k));
            }
            assert forall|k: Seq<char>| #[trigger]
                table::has_key(marks1, k) <==> table::has_key(marks0, k) || reaches(arcs, node@, k) by {
                assert(after.contains(k) <==> table::lookup(marks1, k) == Some(DONE));
                assert(done.contains(k) <==> table::lookup(marks0, k) == Some(DONE));
                if table::has_key(marks0, k) {
                    assert(none.contains(k) || done.contains(k));
                }
            }
        }
    }
    found
}

/// A search begins with nothing marked.
pub proof fn nothing_searched(arcs: Seq<Arc>)
    ensures
        searching(arcs, Seq::empty(), Seq::empty(), Seq::empty()),
{
}

proof fn all_done_is_acyclic(ids: Seq<Seq<char>>, arcs: Seq<Arc>, marks: Seq<(Seq<char>, u8)>, done: Seq<Seq<char>>)
    requires
        graph::well_formed(ids, arcs),
        searching(arcs, marks, Seq::empty(), done),
        forall|k: Seq<char>| ids.contains(k) ==> table::has_key(marks, k),
    ensures
        acyclic(arcs),
{
    let rank = |k: Seq<char>|
        if done.contains(k) {
            done.len() - done.index_of_first(k)->0
        } else {
            0int
        };
    assert(bounded_below(rank)) by {
        assert forall|k: Seq<char>| 0 <= #[trigger] rank(k) by {
            done.index_of_first_ensures(k);
        }
    }
    assert(ranks(rank, arcs)) by {
        assert forall|i: int| 0 <= i < arcs.len() implies rank(#[trigger] arcs[i].0) < rank(arcs[i].1) by {
            let s = arcs[i].0;
            let t = arcs[i].1;
            assert(ids.contains(s));
            assert(table::has_key(marks, s));
            assert(Seq::<Seq<char>>::empty().contains(s) || done.contains(s));
            done.index_of_first_ensures(s);
            let j = done.index_of_first(s)->0;
            assert(done[j] == s);
            assert(done.take(j).contains(t));
            let a = choose|a: int| 0 <= a < j && done.take(j)[a] == t;
            assert(done[a] == t);
            assert(done.contains(t));
            done.index_of_first_ensures(t);
            let b = done.index_of_first(t)->0;
            assert(b <= a) by {
                if b > a {
                    assert(done[a] != t);
                }
            }
        }
    }
}

/// Whether the edges of a well-formed graph close a cycle.
pub fn has_cycle(nodes: &Vec<AutomationNode>, edges: &Vec<AutomationEdge>) -> (r: bool)
    requires
        graph::well_formed(ids_of(nodes.deep_view()), arcs_of(edges.deep_view())),
    ensures
        r == !acyclic(arcs_of(edges.deep_view())),
{
    let ghost ids = ids_of(nodes.deep_view());
    let ghost arcs = arcs_of(edges.deep_view());
    let mut marks: Table<u8> = Table::new();
    proof {
        nothing_searched(arcs);
    }
    let mut i: usize = 0;
    while i < nodes.len()
        invariant
            i <= nodes@.len(),
            ids == ids_of(nodes.deep_view()),
            arcs == arcs_of(edges.deep_view()),
            exists|done: Seq<Seq<char>>| #[trigger] searching(arcs, marks.deep_view(), Seq::empty(), done),
            forall|j: int| 0 <= j < i ==> table::has_key(marks.deep_view(), #[trigger] ids[j]),
        decreases nodes@.len() - i,
    {
        proof {
            assert(ids[i as int] == nodes@[i as int].id@);
        }
        if !marks.contains_key(nodes[i].id.as_str()) {
            let ghost marks0 = marks.deep_view();
            if has_cycle_dfs(nodes[i].id.as_str(), edges, &mut marks) {
                proof {
                    let k = choose|k: Seq<char>| #[trigger] leads(arcs, k, k) && reaches(arcs, ids[i as int], k);
                    if acyclic(arcs) {
                        graph::acyclic_never_returns(arcs, k);
                    }
                }
                return true;
            }
            proof {
                let here = seq![ids[i as int]];
                assert(is_walk(arcs, here) && here[0] == ids[i as int] && here.last() == ids[i as int]);
                assert(reaches(arcs, ids[i as int], ids[i as int]));
                assert forall|j: int| 0 <= j < i + 1 implies table::has_key(marks.deep_view(), #[trigger] ids[j]) by {
                    if j < i {
                        assert(table::has_key(marks0, ids[j]));
                    }
                }
            }
        }
        i = i + 1;
    }
    proof {
        let done = choose|done: Seq<Seq<char>>| #[trigger] searching(arcs, marks.deep_view(), Seq::empty(), done);
        assert forall|k: Seq<char>| ids.contains(k) implies table::has_key(marks.deep_view(), k) by {
            let j = choose|j: int| 0 <= j < ids.len() && ids[j] == k;
            assert(table::has_key(marks.deep_view(), ids[j]));
        }
        all_done_is_acyclic(ids, arcs, marks.deep_view(), done);
    }
    false
}

// ---------- Upstream and downstream ----------

/// How many of the first `n` arcs have their source (or, `forward`, their
/// target) outside `seen`.
pub open spec fn outside(arcs: Seq<Arc>, seen: Seq<Seq<char>>, forward: bool, n: int) -> nat
    decreases n,
{
    if n <= 0 {
        0
    } else {
        let end = if forward { arcs[n - 1].1 } else { arcs[n - 1].0 };
        outside(arcs, seen, forward, n - 1) + (if seen.contains(end) {
            0nat
        } else {
            1nat
        })
    }
}

proof fn fewer_outside(arcs: Seq<Arc>, seen: Seq<Seq<char>>, forward: bool, i: int, n: int)
    requires
        0 <= i < arcs.len(),
        0 <= n <= arcs.len(),
        !seen.contains(if forward { arcs[i].1 } else { arcs[i].0 }),
    ensures
        outside(arcs, seen.push(if forward { arcs[i].1 } else { arcs[i].0 }), forward, n) + (if i < n {
            1nat
        } else {
            0nat
        }) <= outside(arcs, seen, forward, n),
    decreases n,
{
    if n > 0 {
        fewer_outside(arcs, seen, forward, i, n - 1);
        let end = if forward { arcs[i].1 } else { arcs[i].0 };
        let more = seen.push(end);
        let e = if forward { arcs[n - 1].1 } else { arcs[n - 1].0 };
        if seen.contains(e) {
            let a = choose|a: int| 0 <= a < seen.len() && seen[a] == e;
            assert(more[a] == e);
        }
        assert(more[seen.len() as int] == end);
    }
}

proof fn extend_front(arcs: Seq<Arc>, a: Seq<char>, b: Seq<char>, c: Seq<char>)
    requires
        linked(arcs, a, b),
        reaches(arcs, b, c),
    ensures
        reaches(arcs, a, c),
{
    let walk = choose|walk: Seq<Seq<char>>| #[trigger] is_walk(arcs, walk) && walk[0] == b && walk.last() == c;
    let longer = seq![a] + walk;
    assert forall|i: int| 0 <= i < longer.len() - 1 implies linked(arcs, #[trigger] longer[i], longer[i + 1]) by {
        if i > 0 {
            assert(linked(arcs, walk[i - 1], walk[i - 1 + 1]));
        }
    }
    assert(is_walk(arcs, longer));
    assert(longer[0] == a && longer.last() == c);
}

proof fn extend_back(arcs: Seq<Arc>, a: Seq<char>, b: Seq<char>, c: Seq<char>)
    requires
        a == b || leads(arcs, a, b),
        linked(arcs, b, c),
    ensures
        leads(arcs, a, c),
{
    let walk = if a == b {
        seq![a]
    } else {
        choose|walk: Seq<Seq<char>>| #[trigger] is_walk(arcs, walk) && walk.len() >= 2 && walk[0] == a && walk.last() == b
    };
    let longer = walk.push(c);
    assert forall|i: int| 0 <= i < longer.len() - 1 implies linked(arcs, #[trigger] longer[i], longer[i + 1]) by {
        if i < walk.len() - 1 {
            assert(linked(arcs, walk[i], walk[i + 1]));
        }
    }
    assert(is_walk(arcs, longer));
    assert(longer[0] == a && longer.last() == c);
}

proof fn walk_stays_upstream(arcs: Seq<Arc>, seen: Seq<Seq<char>>, walk: Seq<Seq<char>>, i: int)
    requires
        is_walk(arcs, walk),
        0 <= i < walk.len(),
        seen.contains(walk.last()),
        forall|m: int| 0 <= m < arcs.len() && seen.contains((#[trigger] arcs[m]).1) ==> seen.contains(arcs[m].0),
    ensures
        seen.contains(walk[i]),
    decreases walk.len() - i,
{
    if i < walk.len() - 1 {
        walk_stays_upstream(arcs, seen, walk, i + 1);
        assert(linked(arcs, walk[i], walk[i + 1]));
        let m = choose|m: int| 0 <= m < arcs.len() && arcs[m] == (walk[i], walk[i + 1]);
        assert(seen.contains(arcs[m].1));
    }
}

proof fn walk_stays_downstream(arcs: Seq<Arc>, firing: Seq<Seq<char>>, seen: Seq<Seq<char>>, walk: Seq<Seq<char>>, i: int)
    requires
        is_walk(arcs, walk),
        1 <= i < walk.len(),
        firing.contains(walk[0]),
        forall|m: int|
            0 <= m < arcs.len() && (firing.contains((#[trigger] arcs[m]).0) || seen.contains(arcs[m].0)) ==> seen.contains(
                arcs[m].1,
            ),
    ensures
        seen.contains(walk[i]),
    decreases i,
{
    assert(linked(arcs, walk[i - 1], walk[i - 1 + 1]));
    let m = choose|m: int| 0 <= m < arcs.len() && arcs[m] == (walk[i - 1], walk[i]);
    if i > 1 {
        walk_stays_downstream(arcs, firing, seen, walk, i - 1);
    }
    assert(arcs[m].1 == walk[i]);
}

/// The block `target` and every block from which a walk leads to it, each
/// once.
pub fn upstream_closure(target: &str, edges: &Vec<AutomationEdge>) -> (seen: Vec<String>)
    ensures
        seen.deep_view().no_duplicates(),
        forall|k: Seq<char>| #[trigger]
            seen.deep_view().contains(k) <==> reaches(arcs_of(edges.deep_view()), k, target@),
{
    let ghost arcs = arcs_of(edges.deep_view());
    let mut seen: Vec<String> = Vec::new();
    seen.push(target.to_owned());
    proof {
        assert(seen.deep_view() =~= seq![target@]);
        assert(is_walk(arcs, seq![target@]));
        assert(reaches(arcs, target@, target@));
    }
    let mut h: usize = 0;
    while h < seen.len()
        invariant
            arcs == arcs_of(edges.deep_view()),
            h <= seen@.len(),
            seen@.len() > 0,
            seen.deep_view()[0] == target@,
            seen.deep_view().no_duplicates(),
            forall|j: int| 0 <= j < seen@.len() ==> reaches(arcs, #[trigger] seen.deep_view()[j], target@),
            forall|j: int, m: int|
                0 <= j < h && 0 <= m < arcs.len() && (#[trigger] arcs[m]).1 == #[trigger] seen.deep_view()[j]
                    ==> seen.deep_view().contains(arcs[m].0),
        decreases outside(arcs, seen.deep_view(), false, arcs.len() as int), seen@.len() - h,
    {
        let id = seen[h].clone();
        let ghost seen0 = seen.deep_view();
        proof {
            assert(seen0[h as int] == id@);
            assert(reaches(arcs, seen0[h as int], target@));
        }
        let mut i: usize = 0;
        while i < edges.len()
            invariant
                arcs == arcs_of(edges.deep_view()),
                i <= edges@.len(),
                h < seen0.len() <= seen@.len(),
                id@ == seen0[h as int],
                seen.deep_view().take(seen0.len() as int) == seen0,
                seen.deep_view()[0] == target@,
                seen.deep_view().no_duplicates(),
                reaches(arcs, id@, target@),
                forall|j: int| 0 <= j < seen@.len() ==> reaches(arcs, #[trigger] seen.deep_view()[j], target@),
                forall|j: int, m: int|
                    0 <= j < h && 0 <= m < arcs.len() && (#[trigger] arcs[m]).1 == #[trigger] seen.deep_view()[j]
                        ==> seen.deep_view().contains(arcs[m].0),
                forall|m: int| 0 <= m < i && (#[trigger] arcs[m]).1 == id@ ==> seen.deep_view().contains(arcs[m].0),
                seen@.len() > seen0.len() ==> outside(arcs, seen.deep_view(), false, arcs.len() as int) < outside(
                    arcs,
                    seen0,
                    false,
                    arcs.len() as int,
                ),
                seen@.len() == seen0.len() ==> seen.deep_view() == seen0,
            decreases edges@.len() - i,
        {
            proof {
                assert(arcs[i as int] == (edges@[i as int].source_node@, edges@[i as int].target_node@));
            }
            if same(edges[i].target_node.as_str(), id.as_str()) && !lists::has_text(&seen, edges[i].source_node.as_str()) {
                let ghost had = seen.deep_view();
                let ghost src = edges@[i as int].source_node@;
                seen.push(edges[i].source_node.clone());
                proof {
                    assert(seen.deep_view() =~= had.push(src));
                    fewer_outside(arcs, had, false, i as int, arcs.len() as int);
                    assert(linked(arcs, src, id@)) by {
                        assert(arcs[i as int] == (src, id@));
                    }
                    extend_front(arcs, src, id@, target@);
                    assert(seen.deep_view().take(seen0.len() as int) =~= had.take(seen0.len() as int));
                    assert forall|k: Seq<char>| had.contains(k) implies seen.deep_view().contains(k) by {
                        let a = choose|a: int| 0 <= a < had.len() && had[a] == k;
                        assert(seen.deep_view()[a] == k);
                    }
                    assert(seen.deep_view()[had.len() as int] == src);
                    assert forall|j: int, m: int|
                        0 <= j < h && 0 <= m < arcs.len() && (#[trigger] arcs[m]).1 == #[trigger] seen.deep_view()[j] implies seen.deep_view().contains(
                        arcs[m].0,
                    ) by {
                        assert(had[j] == arcs[m].1);
                    }
                }
            }
            i = i + 1;
        }
        proof {
            assert(seen.deep_view()[h as int] == id@) by {
                assert(seen.deep_view().take(seen0.len() as int)[h as int] == seen.deep_view()[h as int]);
            }
        }
        h = h + 1;
    }
    proof {
        let all = seen.deep_view();
        assert forall|m: int| 0 <= m < arcs.len() && all.contains((#[trigger] arcs[m]).1) implies all.contains(
            arcs[m].0,
        ) by {
            let j = choose|j: int| 0 <= j < all.len() && all[j] == arcs[m].1;
            assert(all[j] == arcs[m].1);
        }
        assert forall|k: Seq<char>| #[trigger] all.contains(k) <==> reaches(arcs, k, target@) by {
            if reaches(arcs, k, target@) {
                let walk = choose|walk: Seq<Seq<char>>| #[trigger]
                    is_walk(arcs, walk) && walk[0] == k && walk.last() == target@;
                assert(all.contains(all[0]));
                walk_stays_upstream(arcs, all, walk, 0);
            }
        }
    }
    seen
}

/// Every block to which a walk of at least one arc leads from one of `firing`,
/// each once.
pub fn downstream_of(firing: &Vec<String>, edges: &Vec<AutomationEdge>) -> (seen: Vec<String>)
    ensures
        seen.deep_view().no_duplicates(),
        forall|k: Seq<char>| #[trigger]
            seen.deep_view().contains(k) <==> exists|f: int|
                0 <= f < firing@.len() && leads(arcs_of(edges.deep_view()), #[trigger] firing.deep_view()[f], k),
{
    let ghost arcs = arcs_of(edges.deep_view());
    let ghost start = firing.deep_view();
    let mut seen: Vec<String> = Vec::new();
    let mut work: Vec<String> = firing.dup();
    proof {
        assert(work.deep_view() =~= start + seen.deep_view());
    }
    let mut h: usize = 0;
    while h < work.len()
        invariant
            arcs == arcs_of(edges.deep_view()),
            start == firing.deep_view(),
            h <= work@.len(),
            work.deep_view() == start + seen.deep_view(),
            seen.deep_view().no_duplicates(),
            forall|j: int|
                0 <= j < seen@.len() ==> exists|f: int|
                    0 <= f < start.len() && leads(arcs, #[trigger] start[f], #[trigger] seen.deep_view()[j]),
            forall|j: int, m: int|
                0 <= j < h && 0 <= m < arcs.len() && (#[trigger] arcs[m]).0 == #[trigger] work.deep_view()[j]
                    ==> seen.deep_view().contains(arcs[m].1),
        decreases outside(arcs, seen.deep_view(), true, arcs.len() as int), work@.len() - h,
    {
        let id = work[h].clone();
        let ghost work0 = work.deep_view();
        let ghost seen0 = seen.deep_view();
        proof {
            assert(work0[h as int] == id@);
            assert(work0.len() == work@.len() && work0.len() == start.len() + seen0.len());
        }
        let ghost origin = if h < start.len() {
            h as int
        } else {
            choose|f: int| 0 <= f < start.len() && leads(arcs, #[trigger] start[f], seen0[h - start.len()])
        };
        proof {
            if h >= start.len() {
                assert((start + seen0)[h as int] == seen0[h - start.len()]);
                assert(exists|f: int| 0 <= f < start.len() && leads(arcs, #[trigger] start[f], seen0[h - start.len()]));
            }
        }
        let mut i: usize = 0;
        while i < edges.len()
            invariant
                arcs == arcs_of(edges.deep_view()),
                start == firing.deep_view(),
                i <= edges@.len(),
                h < work0.len() <= work@.len(),
                id@ == work0[h as int],
                work.deep_view().take(work0.len() as int) == work0,
                work.deep_view() == start + seen.deep_view(),
                seen.deep_view().no_duplicates(),
                0 <= origin < start.len(),
                start[origin] == id@ || leads(arcs, start[origin], id@),
                forall|j: int|
                    0 <= j < seen@.len() ==> exists|f: int|
                        0 <= f < start.len() && leads(arcs, #[trigger] start[f], #[trigger] seen.deep_view()[j]),
                forall|j: int, m: int|
                    0 <= j < h && 0 <= m < arcs.len() && (#[trigger] arcs[m]).0 == #[trigger] work.deep_view()[j]
                        ==> seen.deep_view().contains(arcs[m].1),
                forall|m: int| 0 <= m < i && (#[trigger] arcs[m]).0 == id@ ==> seen.deep_view().contains(arcs[m].1),
                work@.len() > work0.len() ==> outside(arcs, seen.deep_view(), true, arcs.len() as int) < outside(
                    arcs,
                    seen0,
                    true,
                    arcs.len() as int,
                ),
                work@.len() == work0.len() ==> seen.deep_view() == seen0,
            decreases edges@.len() - i,
        {
            proof {
                assert(arcs[i as int] == (edges@[i as int].source_node@, edges@[i as int].target_node@));
            }
            if same(edges[i].source_node.as_str(), id.as_str()) && !lists::has_text(&seen, edges[i].target_node.as_str()) {
                let ghost had = seen.deep_view();
                let ghost hadwork = work.deep_view();
                let ghost t = edges@[i as int].target_node@;
                seen.push(edges[i].target_node.clone());
                work.push(edges[i].target_node.clone());
                proof {
                    assert(seen.deep_view() =~= had.push(t));
                    assert(work.deep_view() =~= hadwork.push(t));
                    assert(work.deep_view() =~= start + seen.deep_view());
                    fewer_outside(arcs, had, true, i as int, arcs.len() as int);
                    assert(linked(arcs, id@, t)) by {
                        assert(arcs[i as int] == (id@, t));
                    }
                    extend_back(arcs, start[origin], id@, t);
                    assert(work.deep_view().take(work0.len() as int) =~= hadwork.take(work0.len() as int));
                    assert forall|k: Seq<char>| had.contains(k) implies seen.deep_view().contains(k) by {
                        let a = choose|a: int| 0 <= a < had.len() && had[a] == k;
                        assert(seen.deep_view()[a] == k);
                    }
                    assert(seen.deep_view()[had.len() as int] == t);
                    assert forall|j: int| 0 <= j < seen@.len() implies exists|f: int|
                        0 <= f < start.len() && leads(arcs, #[trigger] start[f], #[trigger] seen.deep_view()[j]) by {
                        if j < had.len() {
                            assert(seen.deep_view()[j] == had[j]);
                        } else {
                            assert(leads(arcs, start[origin], seen.deep_view()[j]));
                        }
                    }
                    assert forall|j: int, m: int|
                        0 <= j < h && 0 <= m < arcs.len() && (#[trigger] arcs[m]).0 == #[trigger] work.deep_view()[j] implies seen.deep_view().contains(
                        arcs[m].1,
                    ) by {
                        assert(hadwork[j] == arcs[m].0);
                    }
                }
            }
            i = i + 1;
        }
        proof {
            assert(work.deep_view()[h as int] == id@) by {
                assert(work.deep_view().take(work0.len() as int)[h as int] == work.deep_view()[h as int]);
            }
        }
        h = h + 1;
    }
    proof {
        let all = seen.deep_view();
        assert forall|m: int|
            0 <= m < arcs.len() && (start.contains((#[trigger] arcs[m]).0) || all.contains(arcs[m].0)) implies all.contains(
            arcs[m].1,
        ) by {
            if start.contains(arcs[m].0) {
                let j = choose|j: int| 0 <= j < start.len() && start[j] == arcs[m].0;
                assert(work.deep_view()[j] == arcs[m].0);
            } else {
                let j = choose|j: int| 0 <= j < all.len() && all[j] == arcs[m].0;
                assert(work.deep_view()[start.len() + j] == arcs[m].0);
            }
        }
        assert forall|k: Seq<char>| #[trigger] all.contains(k) <==> exists|f: int|
            0 <= f < firing@.len() && leads(arcs, #[trigger] firing.deep_view()[f], k) by {
            if all.contains(k) {
                let j = choose|j: int| 0 <= j < all.len() && all[j] == k;
                assert(exists|f: int| 0 <= f < start.len() && leads(arcs, #[trigger] start[f], all[j]));
            }
            if exists|f: int| 0 <= f < firing@.len() && leads(arcs, #[trigger] firing.deep_view()[f], k) {
                let f = choose|f: int| 0 <= f < firing@.len() && leads(arcs, #[trigger] firing.deep_view()[f], k);
                let walk = choose|walk: Seq<Seq<char>>| #[trigger]
                    is_walk(arcs, walk) && walk.len() >= 2 && walk[0] == start[f] && walk.last() == k;
                assert(start.contains(walk[0]));
                walk_stays_downstream(arcs, start, all, walk, walk.len() - 1);
            }
        }
    }
    seen
}

} // verus!
