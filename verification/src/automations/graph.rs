//! The graph of an automation: its order, its cycles, and what lies upstream or
//! downstream of a block.

use vstd::prelude::*;

use crate::automations::types::{AutomationEdge, AutomationEdgeModel, AutomationNode, AutomationNodeModel};
use crate::table;
use crate::table::Table;
use crate::text::same;

verus! {

/// An arc from one block to another.
pub type Arc = (Seq<char>, Seq<char>);

/// The arcs that edges draw.
pub open spec fn arcs_of(edges: Seq<AutomationEdgeModel>) -> Seq<Arc> {
    edges.map_values(|e: AutomationEdgeModel| (e.source_node, e.target_node))
}

/// The ids of blocks.
pub open spec fn ids_of(nodes: Seq<AutomationNodeModel>) -> Seq<Seq<char>> {
    nodes.map_values(|n: AutomationNodeModel| n.id)
}

/// Every arc leads to a higher rank.
pub open spec fn ranks(rank: spec_fn(Seq<char>) -> int, arcs: Seq<Arc>) -> bool {
    forall|i: int| 0 <= i < arcs.len() ==> rank(#[trigger] arcs[i].0) < rank(arcs[i].1)
}

/// The arcs go round in no cycle: the blocks can be ranked so that every arc
/// leads upward.
pub open spec fn acyclic(arcs: Seq<Arc>) -> bool {
    exists|rank: spec_fn(Seq<char>) -> int| ranks(rank, arcs) && #[trigger] bounded_below(rank)
}

/// No rank is negative.
pub open spec fn bounded_below(rank: spec_fn(Seq<char>) -> int) -> bool {
    forall|k: Seq<char>| 0 <= #[trigger] rank(k)
}

/// An arc leads from `a` to `b`.
pub open spec fn linked(arcs: Seq<Arc>, a: Seq<char>, b: Seq<char>) -> bool {
    arcs.contains((a, b))
}

/// Each step of the walk follows an arc.
pub open spec fn is_walk(arcs: Seq<Arc>, walk: Seq<Seq<char>>) -> bool {
    walk.len() >= 1 && forall|i: int| 0 <= i < walk.len() - 1 ==> linked(arcs, #[trigger] walk[i], walk[i + 1])
}

/// A walk leads from `a` to `b`; every block leads to itself.
pub open spec fn reaches(arcs: Seq<Arc>, a: Seq<char>, b: Seq<char>) -> bool {
    exists|walk: Seq<Seq<char>>| #[trigger] is_walk(arcs, walk) && walk[0] == a && walk.last() == b
}

/// A walk of at least one arc leads from `a` to `b`.
pub open spec fn leads(arcs: Seq<Arc>, a: Seq<char>, b: Seq<char>) -> bool {
    exists|walk: Seq<Seq<char>>| #[trigger] is_walk(arcs, walk) && walk.len() >= 2 && walk[0] == a && walk.last() == b
}

proof fn walk_climbs(arcs: Seq<Arc>, walk: Seq<Seq<char>>, rank: spec_fn(Seq<char>) -> int, n: int)
    requires
        is_walk(arcs, walk),
        ranks(rank, arcs),
        0 <= n < walk.len(),
    ensures
        rank(walk[0]) + n <= rank(walk[n]),
    decreases n,
{
    if n > 0 {
        walk_climbs(arcs, walk, rank, n - 1);
        assert(linked(arcs, walk[n - 1], walk[n - 1 + 1]));
        let i = choose|i: int| 0 <= i < arcs.len() && arcs[i] == (walk[n - 1], walk[n]);
        assert(rank(arcs[i].0) < rank(arcs[i].1));
    }
}

/// In an acyclic graph no block leads back to itself.
pub proof fn acyclic_never_returns(arcs: Seq<Arc>, a: Seq<char>)
    requires
        acyclic(arcs),
    ensures
        !leads(arcs, a, a),
{
    let rank = choose|rank: spec_fn(Seq<char>) -> int| ranks(rank, arcs) && #[trigger] bounded_below(rank);
    if leads(arcs, a, a) {
        let walk = choose|walk: Seq<Seq<char>>| #[trigger]
            is_walk(arcs, walk) && walk.len() >= 2 && walk[0] == a && walk.last() == a;
        walk_climbs(arcs, walk, rank, walk.len() - 1);
    }
}

// ---------- Counting arcs ----------

/// How many of the first `n` arcs lead to `k` and are not crossed off.
pub open spec fn open_into(arcs: Seq<Arc>, crossed: Seq<bool>, k: Seq<char>, n: int) -> nat
    decreases n,
{
    if n <= 0 {
        0
    } else {
        open_into(arcs, crossed, k, n - 1) + (if arcs[n - 1].1 == k && !crossed[n - 1] {
            1nat
        } else {
            0nat
        })
    }
}

proof fn cross_off(arcs: Seq<Arc>, crossed: Seq<bool>, i: int, k: Seq<char>, n: int)
    requires
        0 <= i < arcs.len(),
        0 <= n <= arcs.len(),
        crossed.len() == arcs.len(),
        !crossed[i],
    ensures
        open_into(arcs, crossed, k, n) == open_into(arcs, crossed.update(i, true), k, n) + (if i < n && arcs[i].1 == k {
            1nat
        } else {
            0nat
        }),
    decreases n,
{
    if n > 0 {
        cross_off(arcs, crossed, i, k, n - 1);
    }
}

proof fn open_arc_exists(arcs: Seq<Arc>, crossed: Seq<bool>, k: Seq<char>, n: int)
    requires
        0 <= n <= arcs.len(),
        open_into(arcs, crossed, k, n) > 0,
    ensures
        exists|i: int| 0 <= i < n && (#[trigger] arcs[i]).1 == k && !crossed[i],
    decreases n,
{
    if arcs[n - 1].1 == k && !crossed[n - 1] {
        assert(arcs[n - 1].1 == k);
    } else {
        open_arc_exists(arcs, crossed, k, n - 1);
    }
}

proof fn no_open_arc(arcs: Seq<Arc>, crossed: Seq<bool>, k: Seq<char>, n: int)
    requires
        0 <= n <= arcs.len(),
        open_into(arcs, crossed, k, n) == 0,
    ensures
        forall|i: int| 0 <= i < n && (#[trigger] arcs[i]).1 == k ==> crossed[i],
    decreases n,
{
    if n > 0 {
        no_open_arc(arcs, crossed, k, n - 1);
    }
}

proof fn open_into_bound(arcs: Seq<Arc>, crossed: Seq<bool>, k: Seq<char>, n: int)
    requires
        0 <= n,
    ensures
        open_into(arcs, crossed, k, n) <= n,
    decreases n,
{
    if n > 0 {
        open_into_bound(arcs, crossed, k, n - 1);
    }
}

// ---------- Topological order ----------

/// Each block with no arcs counted yet.
pub open spec fn node_degrees(ids: Seq<Seq<char>>) -> Seq<(Seq<char>, usize)>
    decreases ids.len(),
{
    if ids.len() == 0 {
        Seq::empty()
    } else {
        let t = node_degrees(ids.drop_last());
        if table::has_key(t, ids.last()) {
            t
        } else {
            table::put(t, ids.last(), 0)
        }
    }
}

/// The number under a key; zero where there is none.
pub open spec fn degree(t: Seq<(Seq<char>, usize)>, k: Seq<char>) -> usize {
    match table::lookup(t, k) {
        Some(d) => d,
        None => 0,
    }
}

/// How many arcs lead to each block.
pub open spec fn degrees(ids: Seq<Seq<char>>, arcs: Seq<Arc>) -> Seq<(Seq<char>, usize)>
    decreases arcs.len(),
{
    if arcs.len() == 0 {
        node_degrees(ids)
    } else {
        let t = degrees(ids, arcs.drop_last());
        table::put(t, arcs.last().1, (degree(t, arcs.last().1) + 1) as usize)
    }
}

/// The keys under which zero stands, in their order.
pub open spec fn zero_keys(t: Seq<(Seq<char>, usize)>) -> Seq<Seq<char>>
    decreases t.len(),
{
    if t.len() == 0 {
        Seq::empty()
    } else if t.last().1 == 0 {
        zero_keys(t.drop_last()).push(t.last().0)
    } else {
        zero_keys(t.drop_last())
    }
}

/// One less, but not below zero.
pub open spec fn less_one(d: usize) -> usize {
    if d == 0 {
        0
    } else {
        (d - 1) as usize
    }
}

/// The degrees and the queue once the arcs out of `id` from place `i` on are
/// crossed off.
pub open spec fn relaxed(
    arcs: Seq<Arc>,
    i: int,
    id: Seq<char>,
    deg: Seq<(Seq<char>, usize)>,
    queue: Seq<Seq<char>>,
) -> (Seq<(Seq<char>, usize)>, Seq<Seq<char>>)
    decreases arcs.len() - i,
{
    if i < 0 || i >= arcs.len() {
        (deg, queue)
    } else if arcs[i].0 != id {
        relaxed(arcs, i + 1, id, deg, queue)
    } else {
        let d = less_one(degree(deg, arcs[i].1));
        relaxed(
            arcs,
            i + 1,
            id,
            table::put(deg, arcs[i].1, d),
            if d == 0 {
                queue.push(arcs[i].1)
            } else {
                queue
            },
        )
    }
}

/// The queue once every block in it from place `h` on has had its arcs crossed
/// off. No block enters it twice, so it ends.
pub open spec fn drained(arcs: Seq<Arc>, deg: Seq<(Seq<char>, usize)>, queue: Seq<Seq<char>>, h: int, fuel: nat) -> Seq<Seq<char>>
    decreases fuel,
{
    if fuel == 0 || h < 0 || h >= queue.len() {
        queue
    } else {
        let (deg2, queue2) = relaxed(arcs, 0, queue[h], deg, queue);
        drained(arcs, deg2, queue2, h + 1, (fuel - 1) as nat)
    }
}

/// The blocks in topological order: first those without arcs into them, by
/// their ids; then each block as soon as all arcs into it are crossed off.
pub open spec fn topological(ids: Seq<Seq<char>>, arcs: Seq<Arc>) -> Seq<Seq<char>> {
    let deg = degrees(ids, arcs);
    drained(arcs, deg, zero_keys(deg), 0, deg.len())
}

/// The state of the sort, with `crossed` saying which arcs are crossed off:
/// those out of the first `h` blocks of the queue, and of the block at place `h`
/// those before place `i`.
pub open spec fn sorting(
    arcs: Seq<Arc>,
    keys: Set<Seq<char>>,
    deg: Seq<(Seq<char>, usize)>,
    queue: Seq<Seq<char>>,
    h: int,
    i: int,
    crossed: Seq<bool>,
) -> bool {
    &&& 0 <= h <= queue.len()
    &&& 0 <= i <= arcs.len()
    &&& i > 0 ==> h < queue.len()
    &&& crossed.len() == arcs.len()
    &&& table::sorted(deg)
    &&& forall|k: Seq<char>| #[trigger] table::has_key(deg, k) <==> keys.contains(k)
    &&& forall|m: int|
        0 <= m < arcs.len() ==> (#[trigger] crossed[m] <==> queue.take(h).contains(arcs[m].0) || (i > 0 && m < i
            && arcs[m].0 == queue[h]))
    &&& forall|m: int| 0 <= m < arcs.len() ==> keys.contains(#[trigger] arcs[m].1)
    &&& forall|k: Seq<char>| keys.contains(k) ==> #[trigger] degree(deg, k) == open_into(arcs, crossed, k, arcs.len() as int)
    &&& queue.no_duplicates()
    &&& forall|k: Seq<char>| #[trigger] queue.contains(k) <==> keys.contains(k) && degree(deg, k) == 0
    &&& forall|j: int, m: int|
        0 <= j < queue.len() && 0 <= m < arcs.len() && (#[trigger] arcs[m]).1 == #[trigger] queue[j] ==> queue.take(
            j,
        ).contains(arcs[m].0)
}

proof fn cross_one(
    arcs: Seq<Arc>,
    keys: Set<Seq<char>>,
    deg: Seq<(Seq<char>, usize)>,
    queue: Seq<Seq<char>>,
    h: int,
    i: int,
    crossed: Seq<bool>,
) -> (after: (Seq<(Seq<char>, usize)>, Seq<Seq<char>>, Seq<bool>))
    requires
        sorting(arcs, keys, deg, queue, h, i, crossed),
        i < arcs.len(),
        h < queue.len(),
    ensures
        sorting(arcs, keys, after.0, after.1, h, i + 1, after.2),
        after.0.len() == deg.len(),
        queue.len() <= after.1.len(),
        after.1.take(queue.len() as int) == queue,
        arcs[i].0 != queue[h] ==> after.0 == deg && after.1 == queue,
        arcs[i].0 == queue[h] ==> {
            let d = less_one(degree(deg, arcs[i].1));
            after.0 == table::put(deg, arcs[i].1, d) && after.1 == (if d == 0 {
                queue.push(arcs[i].1)
            } else {
                queue
            })
        },
{
    let n = arcs.len() as int;
    assert(queue.take(queue.len() as int) =~= queue);
    if arcs[i].0 != queue[h] {
        (deg, queue, crossed)
    } else {
        let t = arcs[i].1;
        let crossed2 = crossed.update(i, true);
        assert(!queue.take(h).contains(queue[h])) by {
            if queue.take(h).contains(queue[h]) {
                let j = choose|j: int| 0 <= j < h && queue.take(h)[j] == queue[h];
                assert(queue[j] == queue[h]);
            }
        }
        assert(!crossed[i]);
        assert(keys.contains(arcs[i].1));
        cross_off(arcs, crossed, i, t, n);
        let d = less_one(degree(deg, t));
        assert(degree(deg, t) == open_into(arcs, crossed, t, n));
        assert(degree(deg, t) > 0);
        let deg2 = table::put(deg, t, d);
        assert(table::has_key(deg, t));
        table::put_existing(deg, t, d);
        table::put_keeps_order(deg, t, d);
        table::put_then_lookup(deg, t, d, t);
        assert(degree(deg2, t) == d);
        assert forall|k: Seq<char>| keys.contains(k) implies #[trigger] degree(deg2, k) == open_into(
            arcs,
            crossed2,
            k,
            n,
        ) by {
            cross_off(arcs, crossed, i, k, n);
            table::put_then_lookup(deg, t, d, k);
            assert(degree(deg, k) == open_into(arcs, crossed, k, n));
        }
        assert(!queue.contains(t));
        let queue2 = if d == 0 {
            queue.push(t)
        } else {
            queue
        };
        assert(queue2.take(queue.len() as int) =~= queue);
        assert(queue2.take(h) =~= queue.take(h));
        assert(queue2[h] == queue[h]);
        assert(queue2.no_duplicates()) by {
            assert forall|a: int, b: int| 0 <= a < b < queue2.len() implies queue2[a] != queue2[b] by {
                if b == queue.len() {
                    assert(queue.contains(queue[a]));
                }
            }
        }
        assert forall|k: Seq<char>| #[trigger] queue2.contains(k) <==> keys.contains(k) && degree(deg2, k) == 0 by {
            table::put_then_lookup(deg, t, d, k);
            assert(queue.contains(k) <==> keys.contains(k) && degree(deg, k) == 0);
            if queue.contains(k) {
                let j = choose|j: int| 0 <= j < queue.len() && queue[j] == k;
                assert(queue2[j] == k);
            }
            if d == 0 && k == t {
                assert(queue2[queue.len() as int] == t);
            }
            if queue2.contains(k) && k != t {
                let j = choose|j: int| 0 <= j < queue2.len() && queue2[j] == k;
                assert(queue[j] == k);
            }
        }
        assert forall|j: int, m: int|
            0 <= j < queue2.len() && 0 <= m < arcs.len() && (#[trigger] arcs[m]).1 == #[trigger] queue2[j] implies queue2.take(
            j,
        ).contains(arcs[m].0) by {
            assert(queue2.take(j) =~= queue.take(j));
            if j < queue.len() {
                assert(queue[j] == arcs[m].1);
            } else {
                no_open_arc(arcs, crossed2, t, n);
                assert(crossed2[m]);
                assert(queue.take(j) =~= queue);
                if m != i && crossed[m] {
                    if queue.take(h).contains(arcs[m].0) {
                        let a = choose|a: int| 0 <= a < h && queue.take(h)[a] == arcs[m].0;
                        assert(queue[a] == arcs[m].0);
                    } else {
                        assert(arcs[m].0 == queue[h]);
                    }
                } else {
                    assert(arcs[m].0 == queue[h]);
                }
            }
        }
        assert forall|m: int| 0 <= m < arcs.len() implies (#[trigger] crossed2[m] <==> queue2.take(h).contains(arcs[m].0)
            || (i + 1 > 0 && m < i + 1 && arcs[m].0 == queue2[h])) by {
            if m != i {
                assert(crossed2[m] == crossed[m]);
            }
        }
        (deg2, queue2, crossed2)
    }
}

proof fn cross_block(
    arcs: Seq<Arc>,
    keys: Set<Seq<char>>,
    deg: Seq<(Seq<char>, usize)>,
    queue: Seq<Seq<char>>,
    h: int,
    i: int,
    crossed: Seq<bool>,
) -> (after: Seq<bool>)
    requires
        sorting(arcs, keys, deg, queue, h, i, crossed),
        h < queue.len(),
    ensures
        ({
            let (deg2, queue2) = relaxed(arcs, i, queue[h], deg, queue);
            sorting(arcs, keys, deg2, queue2, h + 1, 0, after) && deg2.len() == deg.len() && queue.len()
                <= queue2.len() && queue2.take(queue.len() as int) == queue
        }),
    decreases arcs.len() - i,
{
    if i >= arcs.len() {
        assert(queue.take(queue.len() as int) =~= queue);
        let upto = queue.take(h + 1);
        assert(upto =~= queue.take(h).push(queue[h]));
        assert forall|m: int| 0 <= m < arcs.len() implies (#[trigger] crossed[m] <==> upto.contains(
            arcs[m].0,
        )) by {
            if queue.take(h).contains(arcs[m].0) {
                let a = choose|a: int| 0 <= a < h && queue.take(h)[a] == arcs[m].0;
                assert(upto[a] == arcs[m].0);
            }
            if arcs[m].0 == queue[h] {
                assert(upto[h] == arcs[m].0);
            }
            if upto.contains(arcs[m].0) {
                let a = choose|a: int| 0 <= a < upto.len() && upto[a] == arcs[m].0;
                if a < h {
                    assert(queue.take(h)[a] == arcs[m].0);
                }
            }
        }
        crossed
    } else {
        let (deg2, queue2, crossed2) = cross_one(arcs, keys, deg, queue, h, i, crossed);
        assert(queue2[h] == queue[h]) by {
            assert(queue2.take(queue.len() as int)[h] == queue2[h]);
        }
        let after = cross_block(arcs, keys, deg2, queue2, h, i + 1, crossed2);
        let q3 = relaxed(arcs, i + 1, queue[h], deg2, queue2).1;
        assert(q3.take(queue.len() as int) =~= q3.take(queue2.len() as int).take(queue.len() as int));
        after
    }
}

proof fn queue_fits(keys: Set<Seq<char>>, deg: Seq<(Seq<char>, usize)>, queue: Seq<Seq<char>>)
    requires
        queue.no_duplicates(),
        forall|k: Seq<char>| #[trigger] queue.contains(k) ==> keys.contains(k),
        forall|k: Seq<char>| #[trigger] table::has_key(deg, k) <==> keys.contains(k),
    ensures
        queue.len() <= deg.len(),
{
    let all = table::keys_of(deg);
    assert forall|k: Seq<char>| queue.contains(k) implies all.contains(k) by {
        assert(table::has_key(deg, k));
        table::place_from_facts(deg, k, 0);
        let i = table::place_from(deg, k, 0)->0;
        assert(all[i] == k);
    }
    distinct_within(queue, all);
}

/// Distinct members of a sequence are no more than it is long.
proof fn distinct_within(s: Seq<Seq<char>>, all: Seq<Seq<char>>)
    requires
        s.no_duplicates(),
        forall|k: Seq<char>| s.contains(k) ==> all.contains(k),
    ensures
        s.len() <= all.len(),
{
    s.unique_seq_to_set();
    all.lemma_cardinality_of_set();
    assert(s.to_set().subset_of(all.to_set())) by {
        assert forall|k: Seq<char>| s.to_set().contains(k) implies all.to_set().contains(k) by {
            assert(s.contains(k));
        }
    }
    vstd::set_lib::lemma_len_subset(s.to_set(), all.to_set());
}

proof fn drain(
    arcs: Seq<Arc>,
    keys: Set<Seq<char>>,
    deg: Seq<(Seq<char>, usize)>,
    queue: Seq<Seq<char>>,
    h: int,
    fuel: nat,
    crossed: Seq<bool>,
) -> (after: (Seq<(Seq<char>, usize)>, Seq<bool>))
    requires
        sorting(arcs, keys, deg, queue, h, 0, crossed),
        h + fuel >= deg.len(),
    ensures
        ({
            let q = drained(arcs, deg, queue, h, fuel);
            sorting(arcs, keys, after.0, q, q.len() as int, 0, after.1)
        }),
    decreases fuel,
{
    queue_fits(keys, deg, queue);
    if fuel == 0 || h >= queue.len() {
        (deg, crossed)
    } else {
        let crossed2 = cross_block(arcs, keys, deg, queue, h, 0, crossed);
        let (deg2, queue2) = relaxed(arcs, 0, queue[h], deg, queue);
        drain(arcs, keys, deg2, queue2, h + 1, (fuel - 1) as nat, crossed2)
    }
}

/// No arc is crossed off.
pub open spec fn none_crossed(n: nat) -> Seq<bool> {
    Seq::new(n, |i: int| false)
}

/// The ids that a graph speaks of as blocks: its blocks, and where arcs lead.
pub open spec fn known(ids: Seq<Seq<char>>, arcs: Seq<Arc>, k: Seq<char>) -> bool {
    ids.contains(k) || exists|i: int| 0 <= i < arcs.len() && (#[trigger] arcs[i]).1 == k
}

proof fn node_degrees_facts(ids: Seq<Seq<char>>)
    ensures
        table::sorted(node_degrees(ids)),
        forall|k: Seq<char>| #[trigger] table::has_key(node_degrees(ids), k) <==> ids.contains(k),
        forall|k: Seq<char>| #[trigger] degree(node_degrees(ids), k) == 0,
    decreases ids.len(),
{
    if ids.len() > 0 {
        let rest = ids.drop_last();
        node_degrees_facts(rest);
        let t = node_degrees(rest);
        let last = ids.last();
        if !table::has_key(t, last) {
            table::put_keeps_order(t, last, 0);
        }
        assert forall|k: Seq<char>| #[trigger] table::has_key(node_degrees(ids), k) <==> ids.contains(k) by {
            table::put_adds_key(t, last, 0, k);
            assert(table::has_key(t, k) <==> rest.contains(k));
            if rest.contains(k) {
                let i = choose|i: int| 0 <= i < rest.len() && rest[i] == k;
                assert(ids[i] == k);
            }
            if k == last {
                assert(ids[ids.len() - 1] == k);
            }
            if ids.contains(k) && k != last {
                let i = choose|i: int| 0 <= i < ids.len() && ids[i] == k;
                assert(rest[i] == k);
            }
        }
        assert forall|k: Seq<char>| #[trigger] degree(node_degrees(ids), k) == 0 by {
            table::put_then_lookup(t, last, 0, k);
            assert(degree(t, k) == 0);
        }
    }
}

proof fn open_into_prefix(arcs: Seq<Arc>, k: Seq<char>, n: int)
    requires
        0 <= n < arcs.len(),
    ensures
        open_into(arcs, none_crossed(arcs.len()), k, n) == open_into(
            arcs.drop_last(),
            none_crossed((arcs.len() - 1) as nat),
            k,
            n,
        ),
    decreases n,
{
    if n > 0 {
        open_into_prefix(arcs, k, n - 1);
    }
}

proof fn degrees_facts(ids: Seq<Seq<char>>, arcs: Seq<Arc>)
    requires
        arcs.len() <= usize::MAX,
    ensures
        table::sorted(degrees(ids, arcs)),
        forall|k: Seq<char>| #[trigger] table::has_key(degrees(ids, arcs), k) <==> known(ids, arcs, k),
        forall|k: Seq<char>| #[trigger]
            degree(degrees(ids, arcs), k) == open_into(arcs, none_crossed(arcs.len()), k, arcs.len() as int),
    decreases arcs.len(),
{
    if arcs.len() == 0 {
        node_degrees_facts(ids);
    } else {
        let rest = arcs.drop_last();
        degrees_facts(ids, rest);
        let t = degrees(ids, rest);
        let target = arcs.last().1;
        let d = (degree(t, target) + 1) as usize;
        let u = degrees(ids, arcs);
        table::put_keeps_order(t, target, d);
        let n = arcs.len() as int;
        assert forall|k: Seq<char>| #[trigger] table::has_key(u, k) <==> known(ids, arcs, k) by {
            table::put_adds_key(t, target, d, k);
            assert(table::has_key(t, k) <==> known(ids, rest, k));
            if known(ids, rest, k) && !ids.contains(k) {
                let i = choose|i: int| 0 <= i < rest.len() && (#[trigger] rest[i]).1 == k;
                assert(arcs[i].1 == k);
            }
            if k == target {
                assert(arcs[n - 1].1 == k);
            }
            if known(ids, arcs, k) && !ids.contains(k) && k != target {
                let i = choose|i: int| 0 <= i < arcs.len() && (#[trigger] arcs[i]).1 == k;
                assert(rest[i].1 == k);
            }
        }
        assert forall|k: Seq<char>| #[trigger] degree(u, k) == open_into(arcs, none_crossed(arcs.len()), k, n) by {
            open_into_prefix(arcs, k, n - 1);
            open_into_bound(rest, none_crossed(rest.len()), k, n - 1);
            assert(degree(t, k) == open_into(rest, none_crossed(rest.len()), k, n - 1));
            table::put_then_lookup(t, target, d, k);
        }
    }
}

proof fn zero_keys_facts(t: Seq<(Seq<char>, usize)>)
    requires
        table::sorted(t),
    ensures
        zero_keys(t).no_duplicates(),
        forall|k: Seq<char>| #[trigger]
            zero_keys(t).contains(k) <==> exists|i: int| 0 <= i < t.len() && (#[trigger] t[i]).0 == k && t[i].1 == 0,
    decreases t.len(),
{
    if t.len() > 0 {
        let rest = t.drop_last();
        assert(table::sorted(rest)) by {
            assert forall|i: int, j: int| 0 <= i < j < rest.len() implies crate::text::before(
                #[trigger] rest[i].0,
                #[trigger] rest[j].0,
            ) by {
                assert(crate::text::before(t[i].0, t[j].0));
            }
        }
        zero_keys_facts(rest);
        let z = zero_keys(rest);
        let u = zero_keys(t);
        let last = t.last();
        assert(!z.contains(last.0)) by {
            if z.contains(last.0) {
                let i = choose|i: int| 0 <= i < rest.len() && (#[trigger] rest[i]).0 == last.0 && rest[i].1 == 0;
                assert(crate::text::before(t[i].0, t[t.len() - 1].0));
                crate::text::before_is_total(last.0, last.0);
            }
        }
        assert(u.no_duplicates()) by {
            assert forall|a: int, b: int| 0 <= a < b < u.len() implies u[a] != u[b] by {
                if b == z.len() {
                    assert(z.contains(z[a]));
                }
            }
        }
        assert forall|k: Seq<char>| #[trigger] u.contains(k) <==> exists|i: int|
            0 <= i < t.len() && (#[trigger] t[i]).0 == k && t[i].1 == 0 by {
            if u.contains(k) {
                let a = choose|a: int| 0 <= a < u.len() && u[a] == k;
                if a < z.len() {
                    assert(z[a] == k);
                    assert(z.contains(k));
                    let i = choose|i: int| 0 <= i < rest.len() && (#[trigger] rest[i]).0 == k && rest[i].1 == 0;
                    assert(t[i].0 == k);
                } else {
                    assert(t[t.len() - 1].0 == k);
                }
            }
            if exists|i: int| 0 <= i < t.len() && (#[trigger] t[i]).0 == k && t[i].1 == 0 {
                let i = choose|i: int| 0 <= i < t.len() && (#[trigger] t[i]).0 == k && t[i].1 == 0;
                if i < rest.len() {
                    assert(rest[i].0 == k);
                    assert(z.contains(k));
                    let a = choose|a: int| 0 <= a < z.len() && z[a] == k;
                    assert(u[a] == k);
                } else {
                    assert(u[z.len() as int] == k);
                }
            }
        }
    }
}

proof fn begin_sort(ids: Seq<Seq<char>>, arcs: Seq<Arc>) -> (keys: Set<Seq<char>>)
    requires
        arcs.len() <= usize::MAX,
    ensures
        keys == Set::new(|k: Seq<char>| known(ids, arcs, k)),
        ({
            let deg = degrees(ids, arcs);
            sorting(arcs, keys, deg, zero_keys(deg), 0, 0, none_crossed(arcs.len()))
        }),
{
    let keys = Set::new(|k: Seq<char>| known(ids, arcs, k));
    let deg = degrees(ids, arcs);
    let queue = zero_keys(deg);
    let crossed = none_crossed(arcs.len());
    degrees_facts(ids, arcs);
    zero_keys_facts(deg);
    assert forall|k: Seq<char>| #[trigger] queue.contains(k) <==> keys.contains(k) && degree(deg, k) == 0 by {
        table::place_from_facts(deg, k, 0);
        if queue.contains(k) {
            let i = choose|i: int| 0 <= i < deg.len() && (#[trigger] deg[i]).0 == k && deg[i].1 == 0;
            assert(table::has_key(deg, k));
            let p = table::place_from(deg, k, 0)->0;
            crate::text::before_is_total(k, k);
            if p < i {
                assert(crate::text::before(deg[p].0, deg[i].0));
            } else if i < p {
                assert(crate::text::before(deg[i].0, deg[p].0));
            }
        }
        if keys.contains(k) && degree(deg, k) == 0 {
            assert(table::has_key(deg, k));
            let p = table::place_from(deg, k, 0)->0;
            assert(deg[p].0 == k && deg[p].1 == 0);
        }
    }
    assert forall|j: int, m: int|
        0 <= j < queue.len() && 0 <= m < arcs.len() && (#[trigger] arcs[m]).1 == #[trigger] queue[j] implies queue.take(
        j,
    ).contains(arcs[m].0) by {
        assert(queue.contains(queue[j]));
        assert(degree(deg, queue[j]) == 0);
        no_open_arc(arcs, crossed, queue[j], arcs.len() as int);
        assert(crossed[m]);
    }
    assert(queue.take(0) =~= Seq::<Seq<char>>::empty());
    assert forall|m: int| 0 <= m < arcs.len() implies keys.contains(#[trigger] arcs[m].1) by {
        assert(known(ids, arcs, arcs[m].1));
    }
    assert forall|k: Seq<char>| #[trigger] table::has_key(deg, k) <==> keys.contains(k) by {}
    keys
}

/// What holds of every topological order: no block stands in it twice, every
/// block in it is known, and wherever an arc leads to a block of the order, the
/// arc's source stands before it. A known block is missing only if an arc from
/// a block that is missing too leads to it.
pub proof fn topological_facts(ids: Seq<Seq<char>>, arcs: Seq<Arc>)
    requires
        arcs.len() <= usize::MAX,
    ensures
        topological(ids, arcs).no_duplicates(),
        forall|k: Seq<char>| #[trigger] topological(ids, arcs).contains(k) ==> known(ids, arcs, k),
        forall|j: int, m: int|
            0 <= j < topological(ids, arcs).len() && 0 <= m < arcs.len() && (#[trigger] arcs[m]).1 == #[trigger] topological(
                ids,
                arcs,
            )[j] ==> topological(ids, arcs).take(j).contains(arcs[m].0),
        forall|k: Seq<char>| #[trigger]
            known(ids, arcs, k) && !topological(ids, arcs).contains(k) ==> exists|m: int|
                0 <= m < arcs.len() && (#[trigger] arcs[m]).1 == k && !topological(ids, arcs).contains(arcs[m].0),
{
    let keys = begin_sort(ids, arcs);
    let deg = degrees(ids, arcs);
    let order = topological(ids, arcs);
    let (deg2, crossed) = drain(arcs, keys, deg, zero_keys(deg), 0, deg.len(), none_crossed(arcs.len()));
    assert(order.take(order.len() as int) =~= order);
    assert forall|k: Seq<char>| #[trigger] known(ids, arcs, k) && !order.contains(k) implies exists|m: int|
        0 <= m < arcs.len() && (#[trigger] arcs[m]).1 == k && !order.contains(arcs[m].0) by {
        assert(keys.contains(k));
        assert(degree(deg2, k) == open_into(arcs, crossed, k, arcs.len() as int));
        open_arc_exists(arcs, crossed, k, arcs.len() as int);
        let m = choose|m: int| 0 <= m < arcs.len() && (#[trigger] arcs[m]).1 == k && !crossed[m];
        assert(arcs[m].1 == k);
        assert(!order.contains(arcs[m].0));
    }
}

/// Every arc runs between blocks of the graph, and no id is given twice.
pub open spec fn well_formed(ids: Seq<Seq<char>>, arcs: Seq<Arc>) -> bool {
    &&& ids.no_duplicates()
    &&& forall|i: int| 0 <= i < arcs.len() ==> ids.contains((#[trigger] arcs[i]).0) && ids.contains(arcs[i].1)
}

proof fn lowest_missing(
    ids: Seq<Seq<char>>,
    arcs: Seq<Arc>,
    rank: spec_fn(Seq<char>) -> int,
    k: Seq<char>,
)
    requires
        arcs.len() <= usize::MAX,
        well_formed(ids, arcs),
        ranks(rank, arcs),
        bounded_below(rank),
        ids.contains(k),
    ensures
        topological(ids, arcs).contains(k),
    decreases rank(k),
{
    topological_facts(ids, arcs);
    let order = topological(ids, arcs);
    if !order.contains(k) {
        assert(known(ids, arcs, k));
        let m = choose|m: int| 0 <= m < arcs.len() && (#[trigger] arcs[m]).1 == k && !order.contains(arcs[m].0);
        assert(rank(arcs[m].0) < rank(arcs[m].1));
        assert(0 <= rank(arcs[m].0));
        lowest_missing(ids, arcs, rank, arcs[m].0);
    }
}

/// The topological order of a well-formed graph holds all of its blocks exactly
/// if the graph is acyclic.
pub proof fn topological_complete(ids: Seq<Seq<char>>, arcs: Seq<Arc>)
    requires
        arcs.len() <= usize::MAX,
        well_formed(ids, arcs),
    ensures
        topological(ids, arcs).len() == ids.len() <==> acyclic(arcs),
        acyclic(arcs) ==> forall|k: Seq<char>| ids.contains(k) <==> #[trigger] topological(ids, arcs).contains(k),
{
    topological_facts(ids, arcs);
    let order = topological(ids, arcs);
    assert forall|k: Seq<char>| order.contains(k) implies ids.contains(k) by {
        assert(known(ids, arcs, k));
    }
    distinct_within(order, ids);
    if acyclic(arcs) {
        let rank = choose|rank: spec_fn(Seq<char>) -> int| ranks(rank, arcs) && #[trigger] bounded_below(rank);
        assert forall|k: Seq<char>| ids.contains(k) implies order.contains(k) by {
            lowest_missing(ids, arcs, rank, k);
        }
        distinct_within(ids, order);
    }
    if order.len() == ids.len() {
        assert forall|k: Seq<char>| ids.contains(k) implies order.contains(k) by {
            if !order.contains(k) {
                // all of the order would fit in the blocks without k
                let i = choose|i: int| 0 <= i < ids.len() && ids[i] == k;
                let others = ids.remove(i);
                assert forall|x: Seq<char>| order.contains(x) implies others.contains(x) by {
                    let j = choose|j: int| 0 <= j < ids.len() && ids[j] == x;
                    if j < i {
                        assert(others[j] == x);
                    } else {
                        assert(others[j - 1] == x);
                    }
                }
                distinct_within(order, others);
            }
        }
        let rank = |k: Seq<char>|
            if order.contains(k) {
                order.index_of(k)
            } else {
                0int
            };
        assert(bounded_below(rank)) by {
            assert forall|k: Seq<char>| 0 <= #[trigger] rank(k) by {
                if order.contains(k) {
                    let j = order.index_of(k);
                    assert(0 <= j < order.len() && order[j] == k);
                }
            }
        }
        assert(ranks(rank, arcs)) by {
            assert forall|i: int| 0 <= i < arcs.len() implies rank(#[trigger] arcs[i].0) < rank(arcs[i].1) by {
                let t = arcs[i].1;
                assert(order.contains(t));
                let j = order.index_of(t);
                assert(order[j] == t);
                assert(order.take(j).contains(arcs[i].0));
                let a = choose|a: int| 0 <= a < j && order.take(j)[a] == arcs[i].0;
                assert(order[a] == arcs[i].0);
                assert(order.contains(arcs[i].0));
                let b = order.index_of(arcs[i].0);
                assert(order[b] == arcs[i].0);
                assert(a == b);
            }
        }
        assert(acyclic(arcs));
    }
}

/// The ids of blocks in topological order; nothing if the order does not hold
/// as many blocks as the graph.
pub open spec fn sorted_ids(nodes: Seq<AutomationNodeModel>, edges: Seq<AutomationEdgeModel>) -> Option<Seq<Seq<char>>> {
    let order = topological(ids_of(nodes), arcs_of(edges));
    if order.len() == nodes.len() {
        Some(order)
    } else {
        None
    }
}

fn count_degrees(nodes: &Vec<AutomationNode>, edges: &Vec<AutomationEdge>) -> (deg: Table<usize>)
    ensures
        deg.deep_view() == degrees(ids_of(nodes.deep_view()), arcs_of(edges.deep_view())),
{
    let ghost ids = ids_of(nodes.deep_view());
    let ghost arcs = arcs_of(edges.deep_view());
    let mut deg: Table<usize> = Table::new();
    let mut i: usize = 0;
    proof {
        assert(ids.take(0) =~= Seq::<Seq<char>>::empty());
    }
    while i < nodes.len()
        invariant
            i <= nodes@.len(),
            ids == ids_of(nodes.deep_view()),
            deg.deep_view() == node_degrees(ids.take(i as int)),
        decreases nodes@.len() - i,
    {
        proof {
            assert(ids.take(i + 1).drop_last() =~= ids.take(i as int));
            assert(ids.take(i + 1).last() == nodes@[i as int].id@);
        }
        if !deg.contains_key(nodes[i].id.as_str()) {
            deg.insert(nodes[i].id.clone(), 0);
        }
        i = i + 1;
    }
    proof {
        assert(ids.take(nodes@.len() as int) =~= ids);
        assert(arcs.take(0) =~= Seq::<Arc>::empty());
    }
    let mut j: usize = 0;
    while j < edges.len()
        invariant
            j <= edges.len(),
            arcs == arcs_of(edges.deep_view()),
            deg.deep_view() == degrees(ids, arcs.take(j as int)),
        decreases edges@.len() - j,
    {
        let target = &edges[j].target_node;
        proof {
            assert(arcs.take(j + 1).drop_last() =~= arcs.take(j as int));
            assert(arcs.take(j + 1).last().1 == target@);
            degrees_facts(ids, arcs.take(j as int));
            open_into_bound(arcs.take(j as int), none_crossed(j as nat), target@, j as int);
            assert(degree(deg.deep_view(), target@) <= j);
        }
        let d: usize = match deg.get(target.as_str()) {
            Some(d) => *d,
            None => 0,
        };
        deg.insert(target.clone(), d + 1);
        j = j + 1;
    }
    proof {
        assert(arcs.take(edges@.len() as int) =~= arcs);
    }
    deg
}

fn keys_at_zero(deg: &Table<usize>) -> (queue: Vec<String>)
    ensures
        queue.deep_view() == zero_keys(deg.deep_view()),
{
    let ghost t = deg.deep_view();
    let mut queue: Vec<String> = Vec::new();
    let mut i: usize = 0;
    proof {
        assert(t.take(0) =~= Seq::<(Seq<char>, usize)>::empty());
        assert(queue.deep_view() =~= Seq::<Seq<char>>::empty());
    }
    while i < deg.entries.len()
        invariant
            i <= deg.entries@.len(),
            t == deg.deep_view(),
            queue.deep_view() == zero_keys(t.take(i as int)),
        decreases deg.entries@.len() - i,
    {
        proof {
            assert(t.take(i + 1).drop_last() =~= t.take(i as int));
            assert(t.take(i + 1).last() == deg.entries@[i as int].deep_view());
        }
        if deg.entries[i].1 == 0 {
            let ghost had = queue.deep_view();
            queue.push(deg.entries[i].0.clone());
            proof {
                assert(queue.deep_view() =~= had.push(t[i as int].0));
            }
        }
        i = i + 1;
    }
    proof {
        assert(t.take(t.len() as int) =~= t);
    }
    queue
}

/// The ids of blocks in topological order.
pub fn topo_sort_nodes(nodes: &Vec<AutomationNode>, edges: &Vec<AutomationEdge>) -> (r: Option<Vec<String>>)
    ensures
        r.deep_view() == sorted_ids(nodes.deep_view(), edges.deep_view()),
{
    let ghost ids = ids_of(nodes.deep_view());
    let ghost arcs = arcs_of(edges.deep_view());
    let mut deg = count_degrees(nodes, edges);
    let mut queue = keys_at_zero(&deg);
    let ghost n = deg.deep_view().len();
    let ghost mut crossed = none_crossed(arcs.len());
    let ghost keys = Set::new(|k: Seq<char>| known(ids, arcs, k));
    proof {
        assert(arcs.len() == edges.len());
        begin_sort(ids, arcs);
        queue_fits(keys, deg.deep_view(), queue.deep_view());
    }
    let mut h: usize = 0;
    while h < queue.len()
        invariant
            arcs == arcs_of(edges.deep_view()),
            h <= queue@.len(),
            deg.deep_view().len() == n,
            queue@.len() <= n,
            sorting(arcs, keys, deg.deep_view(), queue.deep_view(), h as int, 0, crossed),
            topological(ids, arcs) == drained(arcs, deg.deep_view(), queue.deep_view(), h as int, (n - h) as nat),
        decreases n - h,
    {
        let id = queue[h].clone();
        let ghost deg0 = deg.deep_view();
        let ghost queue0 = queue.deep_view();
        let ghost crossed0 = crossed;
        let mut i: usize = 0;
        while i < edges.len()
            invariant
                arcs == arcs_of(edges.deep_view()),
                i <= edges@.len(),
                h < queue0.len(),
                queue0.len() <= queue@.len(),
                id@ == queue0[h as int],
                queue.deep_view()[h as int] == id@,
                deg.deep_view().len() == n,
                sorting(arcs, keys, deg.deep_view(), queue.deep_view(), h as int, i as int, crossed),
                relaxed(arcs, 0, id@, deg0, queue0) == relaxed(
                    arcs,
                    i as int,
                    id@,
                    deg.deep_view(),
                    queue.deep_view(),
                ),
            decreases edges@.len() - i,
        {
            let ghost d0 = deg.deep_view();
            let ghost q0 = queue.deep_view();
            let ghost after = cross_one(arcs, keys, d0, q0, h as int, i as int, crossed);
            proof {
                assert(arcs[i as int] == (edges@[i as int].source_node@, edges@[i as int].target_node@));
                assert(after.1.take(q0.len() as int)[h as int] == after.1[h as int]);
            }
            if same(edges[i].source_node.as_str(), id.as_str()) {
                let target = &edges[i].target_node;
                let d: usize = match deg.get(target.as_str()) {
                    Some(d) => *d,
                    None => 0,
                };
                let less: usize = if d == 0 { 0 } else { d - 1 };
                deg.insert(target.clone(), less);
                if less == 0 {
                    queue.push(target.clone());
                    proof {
                        assert(queue.deep_view() =~= q0.push(target@));
                    }
                }
            }
            proof {
                crossed = after.2;
                assert(queue.deep_view() =~= after.1);
            }
            i = i + 1;
        }
        proof {
            crossed = cross_block(arcs, keys, deg0, queue0, h as int, 0, crossed0);
            queue_fits(keys, deg.deep_view(), queue.deep_view());
        }
        h = h + 1;
    }
    if queue.len() == nodes.len() {
        Some(queue)
    } else {
        None
    }
}

} // verus!
