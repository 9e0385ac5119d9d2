//! The order in which systems run: a topological order of the graph that
//! their `after` and `before` constraints span, computed by propagating
//! in-degrees (Kahn's algorithm).

use crate::ast::{
    views, FunctionDef, Item, Program, SpecField, SpecFunctionDef, SpecItem, SpecSystemAttribute,
    SystemAttribute, Type,
};
use crate::codegen::CodeGenerator;
use crate::text::{join, lemma_concat_push, spec_concat, spec_join, str_equal, texts};
use vstd::prelude::*;

verus! {

/// A constraint between two nodes of a graph: `source` comes before `target`.
/// A constraint without a source stands for one on a node that is never
/// scheduled: its target is never scheduled either.
#[derive(Debug, Clone, Copy, PartialEq, Eq)]
pub struct Edge {
    pub source: Option<usize>,
    pub target: usize,
}

/// Every edge joins nodes of a graph with `n` nodes.
pub open spec fn edges_in_range(n: int, edges: Seq<Edge>) -> bool {
    forall|e: int|
        0 <= e < edges.len() ==> 0 <= (#[trigger] edges[e]).target < n && (edges[e].source matches Some(
            s,
        ) ==> 0 <= s < n)
}

/// Whether an edge still keeps node `k` from being scheduled, when the nodes
/// in `done` have been.
pub open spec fn blocks(edge: Edge, k: int, done: Set<int>) -> bool {
    edge.target == k && match edge.source {
        Some(s) => !done.contains(s as int),
        None => true,
    }
}

/// How many of the edges `lo..hi` keep node `k` from being scheduled.
pub open spec fn pending(edges: Seq<Edge>, k: int, done: Set<int>, lo: int, hi: int) -> nat
    decreases hi - lo,
{
    if hi <= lo {
        0
    } else {
        pending(edges, k, done, lo, hi - 1) + if blocks(edges[hi - 1], k, done) {
            1nat
        } else {
            0nat
        }
    }
}

/// Whether `k` occurs in `order`.
pub open spec fn scheduled(order: Seq<usize>, k: int) -> bool {
    exists|p: int| 0 <= p < order.len() && #[trigger] order[p] == k
}

/// The nodes that occur in `order`.
pub open spec fn scheduled_set(order: Seq<usize>) -> Set<int> {
    Set::new(|k: int| scheduled(order, k))
}

/// What holds of the order in which the nodes of a graph are scheduled:
/// no node occurs twice; the source of every edge into a scheduled node is
/// scheduled earlier; and a node that is left out has an edge from a node
/// that is left out, or from none.
pub open spec fn valid_index_schedule(n: int, edges: Seq<Edge>, order: Seq<usize>) -> bool {
    &&& order.no_duplicates()
    &&& forall|p: int| 0 <= p < order.len() ==> 0 <= #[trigger] order[p] < n
    &&& forall|e: int, p: int|
        #![trigger edges[e], order[p]]
        0 <= e < edges.len() && 0 <= p < order.len() && order[p] == edges[e].target
            ==> edges[e].source is Some && exists|q: int|
            0 <= q < p && #[trigger] order[q] == edges[e].source->0
    &&& forall|k: int|
        0 <= k < n && !scheduled(order, k) ==> exists|e: int|
            0 <= e < edges.len() && blocks(#[trigger] edges[e], k, scheduled_set(order))
}

/// A sequence of distinct numbers below `n` has at most `n` elements.
pub proof fn lemma_distinct_bounded(s: Seq<usize>, n: int)
    requires
        0 <= n,
        s.no_duplicates(),
        forall|i: int| 0 <= i < s.len() ==> 0 <= #[trigger] s[i] < n,
    ensures
        s.len() <= n,
    decreases n,
{
    if s.len() > 0 {
        assert(0 <= s[0] < n);
        if exists|p: int| 0 <= p < s.len() && s[p] == n - 1 {
            let p = choose|p: int| 0 <= p < s.len() && s[p] == n - 1;
            let rest = s.remove(p);
            assert forall|i: int| 0 <= i < rest.len() implies 0 <= #[trigger] rest[i] < n - 1 by {
                if i < p {
                    assert(rest[i] == s[i]);
                    assert(s[i] != s[p]);
                } else {
                    assert(rest[i] == s[i + 1]);
                    assert(s[i + 1] != s[p]);
                }
            }
            assert forall|i: int, j: int|
                0 <= i < rest.len() && 0 <= j < rest.len() && i != j implies rest[i] != rest[j] by {
                let ii = if i < p {
                    i
                } else {
                    i + 1
                };
                let jj = if j < p {
                    j
                } else {
                    j + 1
                };
                assert(rest[i] == s[ii] && rest[j] == s[jj]);
            }
            lemma_distinct_bounded(rest, n - 1);
        } else {
            lemma_distinct_bounded(s, n - 1);
        }
    }
}

/// Nothing is pending in `lo..hi` exactly when no edge of that range blocks.
pub proof fn lemma_pending_zero(edges: Seq<Edge>, k: int, done: Set<int>, lo: int, hi: int)
    requires
        0 <= lo <= hi <= edges.len(),
    ensures
        pending(edges, k, done, lo, hi) == 0 <==> forall|e: int|
            lo <= e < hi ==> !blocks(#[trigger] edges[e], k, done),
    decreases hi - lo,
{
    if hi > lo {
        lemma_pending_zero(edges, k, done, lo, hi - 1);
        if pending(edges, k, done, lo, hi) == 0 {
            assert forall|e: int| lo <= e < hi implies !blocks(#[trigger] edges[e], k, done) by {
                if e < hi - 1 {
                } else {
                    assert(e == hi - 1);
                }
            }
        }
    }
}

/// The edges `lo..hi` split at the first: its share, and that of the rest.
pub proof fn lemma_pending_first(edges: Seq<Edge>, k: int, done: Set<int>, lo: int, hi: int)
    requires
        0 <= lo < hi <= edges.len(),
    ensures
        pending(edges, k, done, lo, hi) == pending(edges, k, done, lo + 1, hi) + if blocks(
            edges[lo],
            k,
            done,
        ) {
            1nat
        } else {
            0nat
        },
    decreases hi - lo,
{
    if hi - 1 > lo {
        lemma_pending_first(edges, k, done, lo, hi - 1);
    } else {
        assert(pending(edges, k, done, lo, lo) == 0);
        assert(pending(edges, k, done, lo + 1, hi) == 0);
    }
}

/// What is pending in `lo..hi` does not change when a node is scheduled that
/// no edge of the range starts from.
pub proof fn lemma_pending_unchanged(
    edges: Seq<Edge>,
    k: int,
    done: Set<int>,
    cur: int,
    lo: int,
    hi: int,
)
    requires
        0 <= lo <= hi <= edges.len(),
        forall|e: int|
            lo <= e < hi && (#[trigger] edges[e]).target == k ==> edges[e].source != Some(
                cur as usize,
            ) || cur < 0 || cur > usize::MAX,
    ensures
        pending(edges, k, done.insert(cur), lo, hi) == pending(edges, k, done, lo, hi),
    decreases hi - lo,
{
    if hi > lo {
        lemma_pending_unchanged(edges, k, done, cur, lo, hi - 1);
        let edge = edges[hi - 1];
        if edge.target == k {
            match edge.source {
                Some(s) => {
                    assert(s as int != cur);
                },
                None => {},
            }
        }
    }
}

/// What is pending never exceeds the number of edges looked at.
pub proof fn lemma_pending_bound(edges: Seq<Edge>, k: int, done: Set<int>, lo: int, hi: int)
    requires
        0 <= lo <= hi <= edges.len(),
    ensures
        pending(edges, k, done, lo, hi) <= hi - lo,
    decreases hi - lo,
{
    if hi > lo {
        lemma_pending_bound(edges, k, done, lo, hi - 1);
    }
}

/// An element is in a sequence with one more element exactly when it was in
/// the sequence or is the new element.
pub proof fn lemma_scheduled_push(order: Seq<usize>, d: usize, k: int)
    ensures
        scheduled(order.push(d), k) <==> scheduled(order, k) || k == d,
{
    let longer = order.push(d);
    if scheduled(order, k) {
        let p = choose|p: int| 0 <= p < order.len() && #[trigger] order[p] == k;
        assert(longer[p] == k);
    }
    if k == d {
        assert(longer[order.len() as int] == k);
    }
    if scheduled(longer, k) {
        let p = choose|p: int| 0 <= p < longer.len() && #[trigger] longer[p] == k;
        if p < order.len() {
            assert(order[p] == k);
        }
    }
}

/// The order in which the nodes of a graph with `n` nodes are scheduled.
///
/// A node is scheduled when the sources of all edges into it have been; the
/// nodes without an edge into them come first, and a node follows as soon as
/// the last source it waited for has been handled. A node on a cycle, or
/// behind one, or behind an edge without a source, is left out.
pub fn kahn_order(n: usize, edges: &Vec<Edge>) -> (order: Vec<usize>)
    requires
        edges_in_range(n as int, edges@),
    ensures
        valid_index_schedule(n as int, edges@, order@),
{
    let ghost none: Set<int> = Set::empty();
    let mut indeg: Vec<usize> = Vec::new();
    let mut k: usize = 0;
    while k < n
        invariant
            k <= n,
            indeg.len() == k,
            forall|i: int| 0 <= i < k ==> indeg[i] == 0,
        decreases n - k,
    {
        indeg.push(0);
        k += 1;
    }
    let mut j: usize = 0;
    while j < edges.len()
        invariant
            j <= edges.len(),
            indeg.len() == n,
            edges_in_range(n as int, edges@),
            none == Set::<int>::empty(),
            forall|i: int| 0 <= i < n ==> indeg[i] == pending(edges@, i, none, 0, j as int),
        decreases edges.len() - j,
    {
        let target = edges[j].target;
        proof {
            lemma_pending_bound(edges@, target as int, none, 0, j as int);
            assert(blocks(edges@[j as int], target as int, none));
        }
        let bumped = indeg[target] + 1;
        indeg.set(target, bumped);
        j += 1;
    }
    let mut order: Vec<usize> = Vec::new();
    let mut k: usize = 0;
    while k < n
        invariant
            k <= n,
            indeg.len() == n,
            order@.no_duplicates(),
            forall|p: int| 0 <= p < order.len() ==> 0 <= #[trigger] order[p] < k,
            forall|i: int| 0 <= i < k ==> (scheduled(order@, i) <==> indeg[i] == 0),
            forall|p: int| 0 <= p < order.len() ==> indeg[#[trigger] order[p] as int] == 0,
            none == Set::<int>::empty(),
            forall|i: int|
                0 <= i < n ==> indeg[i] == pending(edges@, i, none, 0, edges.len() as int),
        decreases n - k,
    {
        if indeg[k] == 0 {
            proof {
                assert forall|i: int| 0 <= i < k + 1 implies (scheduled(order@.push(k), i)
                    <==> indeg[i] == 0) by {
                    lemma_scheduled_push(order@, k, i);
                    if scheduled(order@, i) {
                        let p = choose|p: int| 0 <= p < order.len() && #[trigger] order[p] == i;
                    }
                }
            }
            order.push(k);
        } else {
            assert(!scheduled(order@, k as int)) by {
                if scheduled(order@, k as int) {
                    let p = choose|p: int| 0 <= p < order.len() && #[trigger] order[p] == k;
                }
            }
        }
        k += 1;
    }
    let mut head: usize = 0;
    let ghost mut done: Set<int> = Set::empty();
    assert forall|e: int, p: int|
        #![trigger edges[e], order[p]]
        0 <= e < edges.len() && 0 <= p < order.len() && order[p] == edges[e].target implies false by {
        lemma_pending_zero(edges@, order[p] as int, none, 0, edges.len() as int);
        assert(blocks(edges@[e], order[p] as int, none));
    }
    while head < order.len()
        invariant
            head <= order.len(),
            indeg.len() == n,
            edges_in_range(n as int, edges@),
            order@.no_duplicates(),
            forall|p: int| 0 <= p < order.len() ==> 0 <= #[trigger] order[p] < n,
            forall|x: int| done.contains(x) <==> exists|p: int| 0 <= p < head && #[trigger] order[p] == x,
            forall|i: int|
                0 <= i < n ==> indeg[i] == pending(edges@, i, done, 0, edges.len() as int),
            forall|i: int| 0 <= i < n ==> (scheduled(order@, i) <==> indeg[i] == 0),
            forall|e: int, p: int|
                #![trigger edges[e], order[p]]
                0 <= e < edges.len() && 0 <= p < order.len() && order[p] == edges[e].target
                    ==> edges[e].source is Some && exists|q: int|
                    0 <= q < p && q < head && #[trigger] order[q] == edges[e].source->0,
        decreases n - head,
    {
        proof {
            lemma_distinct_bounded(order@, n as int);
        }
        let cur = order[head];
        let ghost after = done.insert(cur as int);
        assert(!done.contains(cur as int)) by {
            if done.contains(cur as int) {
                let p = choose|p: int| 0 <= p < head && #[trigger] order[p] == cur as int;
                assert(order@[p] == order@[head as int]);
            }
        }
        let mut j: usize = 0;
        while j < edges.len()
            invariant
                j <= edges.len(),
                head < order.len(),
                cur == order[head as int],
                after == done.insert(cur as int),
                !done.contains(cur as int),
                indeg.len() == n,
                edges_in_range(n as int, edges@),
                order@.no_duplicates(),
                forall|p: int| 0 <= p < order.len() ==> 0 <= #[trigger] order[p] < n,
                forall|x: int|
                    done.contains(x) <==> exists|p: int| 0 <= p < head && #[trigger] order[p] == x,
                forall|i: int|
                    0 <= i < n ==> indeg[i] == pending(edges@, i, after, 0, j as int) + pending(
                        edges@,
                        i,
                        done,
                        j as int,
                        edges.len() as int,
                    ),
                forall|i: int| 0 <= i < n ==> (scheduled(order@, i) <==> indeg[i] == 0),
                forall|e: int, p: int|
                    #![trigger edges[e], order[p]]
                    0 <= e < edges.len() && 0 <= p < order.len() && order[p] == edges[e].target
                        ==> edges[e].source is Some && exists|q: int|
                        0 <= q < p && q <= head && #[trigger] order[q] == edges[e].source->0,
            decreases edges.len() - j,
        {
            let edge = edges[j];
            let ghost before_indeg = indeg@;
            let ghost before_order = order@;
            proof {
                assert forall|i: int| 0 <= i < n implies pending(
                    edges@,
                    i,
                    done,
                    j as int,
                    edges.len() as int,
                ) == pending(edges@, i, done, j + 1, edges.len() as int) + if blocks(
                    edges@[j as int],
                    i,
                    done,
                ) {
                    1nat
                } else {
                    0nat
                } by {
                    lemma_pending_first(edges@, i, done, j as int, edges.len() as int);
                }
            }
            let from_cur = match edge.source {
                Some(s) => s == cur,
                None => false,
            };
            if from_cur {
                let d = edge.target;
                assert(blocks(edge, d as int, done));
                assert(!blocks(edge, d as int, after));
                let lowered = indeg[d] - 1;
                indeg.set(d, lowered);
                if lowered == 0 {
                    proof {
                        assert(!scheduled(before_order, d as int));
                        assert forall|p: int| 0 <= p < before_order.len() implies before_order[p]
                            != d by {
                            if before_order[p] == d {
                                assert(scheduled(before_order, d as int));
                            }
                        }
                        assert forall|i: int| 0 <= i < n implies (scheduled(
                            before_order.push(d),
                            i,
                        ) <==> indeg[i] == 0) by {
                            lemma_scheduled_push(before_order, d, i);
                        }
                        lemma_pending_zero(edges@, d as int, after, 0, j + 1);
                        lemma_pending_zero(edges@, d as int, done, j + 1, edges.len() as int);
                        assert forall|e: int|
                            0 <= e < edges.len() && edges[e].target == d implies edges[e].source is Some
                            && exists|q: int|
                            0 <= q <= head && #[trigger] before_order[q] == edges[e].source->0 by {
                            if e < j + 1 {
                                assert(!blocks(edges@[e], d as int, after));
                            } else {
                                assert(!blocks(edges@[e], d as int, done));
                            }
                            let s = edges[e].source->0;
                            assert(after.contains(s as int));
                            if s == cur {
                                assert(before_order[head as int] == s);
                            } else {
                                assert(done.contains(s as int));
                                let q = choose|q: int| 0 <= q < head && #[trigger] order[q] == s as int;
                                assert(before_order[q] == s);
                            }
                        }
                    }
                    order.push(d);
                    proof {
                        assert forall|e: int, p: int|
                            #![trigger edges[e], order[p]]
                            0 <= e < edges.len() && 0 <= p < order.len() && order[p]
                                == edges[e].target implies edges[e].source is Some && exists|q: int|
                            0 <= q < p && q <= head && #[trigger] order[q] == edges[e].source->0 by {
                            if p < before_order.len() {
                                assert(before_order[p] == order[p]);
                                let q = choose|q: int|
                                    0 <= q < p && q <= head && #[trigger] before_order[q]
                                        == edges[e].source->0;
                                assert(order[q] == before_order[q]);
                            } else {
                                let q = choose|q: int|
                                    0 <= q <= head && #[trigger] before_order[q]
                                        == edges[e].source->0;
                                assert(order[q] == before_order[q]);
                            }
                        }
                        assert forall|x: int| done.contains(x) <==> exists|p: int|
                            0 <= p < head && #[trigger] order[p] == x by {
                            if done.contains(x) {
                                let p = choose|p: int| 0 <= p < head && #[trigger] before_order[p] == x;
                                assert(order[p] == x);
                            }
                            if exists|p: int| 0 <= p < head && #[trigger] order[p] == x {
                                let p = choose|p: int| 0 <= p < head && #[trigger] order[p] == x;
                                assert(before_order[p] == x);
                            }
                        }
                    }
                } else {
                    proof {
                        assert forall|i: int| 0 <= i < n implies (scheduled(order@, i) <==> indeg[i]
                            == 0) by {
                            if i == d {
                                assert(before_indeg[i] != 0);
                            }
                        }
                    }
                }
            } else {
                proof {
                    assert forall|i: int| 0 <= i < n implies blocks(edge, i, after) == blocks(
                        edge,
                        i,
                        done,
                    ) by {
                        match edge.source {
                            Some(s) => {
                                assert(s != cur);
                            },
                            None => {},
                        }
                    }
                }
            }
            j += 1;
        }
        proof {
            assert forall|i: int| 0 <= i < n implies pending(
                edges@,
                i,
                done,
                edges.len() as int,
                edges.len() as int,
            ) == 0 by {}
            assert forall|x: int| after.contains(x) <==> exists|p: int|
                0 <= p < head + 1 && #[trigger] order[p] == x by {
                if after.contains(x) {
                    if x == cur {
                        assert(order[head as int] == x);
                    } else {
                        let p = choose|p: int| 0 <= p < head && #[trigger] order[p] == x;
                    }
                }
                if exists|p: int| 0 <= p < head + 1 && #[trigger] order[p] == x {
                    let p = choose|p: int| 0 <= p < head + 1 && #[trigger] order[p] == x;
                    if p < head {
                        assert(done.contains(x));
                    }
                }
            }
            done = after;
        }
        head += 1;
    }
    proof {
        assert(done =~= scheduled_set(order@));
        assert forall|k: int| 0 <= k < n && !scheduled(order@, k) implies exists|e: int|
            0 <= e < edges.len() && blocks(#[trigger] edges[e], k, scheduled_set(order@)) by {
            lemma_pending_zero(edges@, k, done, 0, edges.len() as int);
        }
    }
    order
}

/// Whether system `i` is the one that counts for its name: where several
/// systems bear one name, the constraints of the last are the name's.
pub open spec fn is_effective(systems: Seq<SpecSystemAttribute>, i: int) -> bool {
    0 <= i < systems.len() && forall|j: int|
        i < j < systems.len() ==> (#[trigger] systems[j]).name != systems[i].name
}

/// Whether a system of this name is declared.
pub open spec fn is_declared(systems: Seq<SpecSystemAttribute>, name: Seq<char>) -> bool {
    exists|i: int| 0 <= i < systems.len() && (#[trigger] systems[i]).name == name
}

/// Whether `after` is named by a `before` constraint of a system that counts.
pub open spec fn is_before_target(systems: Seq<SpecSystemAttribute>, name: Seq<char>) -> bool {
    exists|i: int, j: int|
        is_effective(systems, i) && 0 <= j < systems[i].before.len() && #[trigger] systems[i].before[j]
            == name
}

/// The names that can be scheduled: those of the declared systems, and those
/// that a `before` constraint names.
pub open spec fn is_node(systems: Seq<SpecSystemAttribute>, name: Seq<char>) -> bool {
    is_declared(systems, name) || is_before_target(systems, name)
}

/// Whether system `i` constrains `first` to run before `then`: it is `then`
/// and names `first` under `after`, or it is `first` and names `then` under
/// `before`.
pub open spec fn constrains(s: SpecSystemAttribute, first: Seq<char>, then: Seq<char>) -> bool {
    (s.name == then && s.after.contains(first)) || (s.name == first && s.before.contains(then))
}

/// Whether the constraints ask that `first` run before `then`.
pub open spec fn is_edge(systems: Seq<SpecSystemAttribute>, first: Seq<char>, then: Seq<char>) -> bool {
    exists|i: int| is_effective(systems, i) && constrains(#[trigger] systems[i], first, then)
}

/// What holds of the order in which systems run: no name occurs twice and
/// each can be scheduled; whatever must run before a system that runs does
/// run, and earlier; and a name that is left out waits for one that is left
/// out.
pub open spec fn valid_schedule(systems: Seq<SpecSystemAttribute>, order: Seq<Seq<char>>) -> bool {
    &&& order.no_duplicates()
    &&& forall|p: int| 0 <= p < order.len() ==> is_node(systems, #[trigger] order[p])
    &&& forall|first: Seq<char>, p: int|
        #![trigger is_edge(systems, first, order[p])]
        0 <= p < order.len() && is_edge(systems, first, order[p]) ==> exists|q: int|
            0 <= q < p && #[trigger] order[q] == first
    &&& forall|name: Seq<char>|
        #![trigger is_node(systems, name)]
        is_node(systems, name) && !order.contains(name) ==> exists|first: Seq<char>|
            #[trigger] is_edge(systems, first, name) && !order.contains(first)
}

/// Whether a ranking of the names goes with the constraints: whatever must
/// run first has the lower rank.
pub open spec fn respects(systems: Seq<SpecSystemAttribute>, rank: spec_fn(Seq<char>) -> nat) -> bool {
    forall|first: Seq<char>, then: Seq<char>|
        #[trigger] is_edge(systems, first, then) ==> rank(first) < rank(then)
}

/// The constraints admit an order, which is to say that they hold no cycle:
/// some ranking of the names goes with them.
pub open spec fn is_acyclic(systems: Seq<SpecSystemAttribute>) -> bool {
    exists|rank: spec_fn(Seq<char>) -> nat| #[trigger] respects(systems, rank)
}

/// Every name that a constraint mentions is the name of a declared system.
pub open spec fn is_closed(systems: Seq<SpecSystemAttribute>) -> bool {
    forall|first: Seq<char>, then: Seq<char>|
        #[trigger] is_edge(systems, first, then) ==> is_declared(systems, first) && is_declared(
            systems,
            then,
        )
}

/// Under constraints that admit an order and mention declared systems only,
/// a name of rank at most `r` is not left out.
proof fn lemma_ranked_names_run(
    systems: Seq<SpecSystemAttribute>,
    order: Seq<Seq<char>>,
    rank: spec_fn(Seq<char>) -> nat,
    r: nat,
    name: Seq<char>,
)
    requires
        valid_schedule(systems, order),
        is_closed(systems),
        respects(systems, rank),
        is_node(systems, name),
        rank(name) <= r,
    ensures
        order.contains(name),
    decreases r,
{
    if !order.contains(name) {
        let first = choose|first: Seq<char>|
            #[trigger] is_edge(systems, first, name) && !order.contains(first);
        assert(rank(first) < rank(name));
        assert(is_declared(systems, first));
        lemma_ranked_names_run(systems, order, rank, (r - 1) as nat, first);
    }
}

/// Where the constraints admit an order and mention declared systems only,
/// every declared system runs, and for every constraint the system that must
/// run first runs strictly before the other.
pub proof fn lemma_acyclic_schedule_is_topological(
    systems: Seq<SpecSystemAttribute>,
    order: Seq<Seq<char>>,
)
    requires
        valid_schedule(systems, order),
        is_acyclic(systems),
        is_closed(systems),
    ensures
        forall|name: Seq<char>| #[trigger] is_declared(systems, name) ==> order.contains(name),
        forall|first: Seq<char>, then: Seq<char>|
            #[trigger] is_edge(systems, first, then) ==> exists|q: int, p: int|
                0 <= q < p < order.len() && order[q] == first && order[p] == then,
{
    let rank = choose|rank: spec_fn(Seq<char>) -> nat| #[trigger] respects(systems, rank);
    assert forall|name: Seq<char>| #[trigger] is_declared(systems, name) implies order.contains(
        name,
    ) by {
        lemma_ranked_names_run(systems, order, rank, rank(name), name);
    }
    assert forall|first: Seq<char>, then: Seq<char>| #[trigger]
        is_edge(systems, first, then) implies exists|q: int, p: int|
        0 <= q < p < order.len() && order[q] == first && order[p] == then by {
        assert(is_declared(systems, then));
        assert(order.contains(then));
        let p = choose|p: int| 0 <= p < order.len() && order[p] == then;
        assert(is_edge(systems, first, order[p]));
        let q = choose|q: int| 0 <= q < p && #[trigger] order[q] == first;
        assert(0 <= q < p < order.len() && order[q] == first && order[p] == then);
    }
}

/// A declared name has a system that counts for it: the last of that name.
pub proof fn lemma_last_of_name(systems: Seq<SpecSystemAttribute>, i: int) -> (last: int)
    requires
        0 <= i < systems.len(),
    ensures
        i <= last,
        is_effective(systems, last),
        systems[last].name == systems[i].name,
    decreases systems.len() - i,
{
    if is_effective(systems, i) {
        i
    } else {
        let j = choose|j: int|
            i < j < systems.len() && (#[trigger] systems[j]).name == systems[i].name;
        lemma_last_of_name(systems, j)
    }
}

/// Whether a graph over indices stands for the constraints of `systems`:
/// `nodes` holds each name that can be scheduled, once; edge `e` stands for
/// the constraint that `sources[e]` run before the name of its target, and
/// has no source where that name cannot be scheduled; and every constraint
/// has an edge.
pub open spec fn stands_for(
    systems: Seq<SpecSystemAttribute>,
    nodes: Seq<Seq<char>>,
    edges: Seq<Edge>,
    sources: Seq<Seq<char>>,
) -> bool {
    &&& nodes.no_duplicates()
    &&& forall|a: int| 0 <= a < nodes.len() ==> is_node(systems, #[trigger] nodes[a])
    &&& forall|name: Seq<char>| #[trigger] is_node(systems, name) ==> nodes.contains(name)
    &&& edges.len() == sources.len()
    &&& edges_in_range(nodes.len() as int, edges)
    &&& forall|e: int|
        0 <= e < edges.len() ==> is_edge(
            systems,
            sources[e],
            nodes[(#[trigger] edges[e]).target as int],
        ) && match edges[e].source {
            Some(s) => nodes[s as int] == sources[e],
            None => !nodes.contains(sources[e]),
        }
    &&& forall|first: Seq<char>, then: Seq<char>| #[trigger]
        is_edge(systems, first, then) ==> exists|e: int|
            0 <= e < edges.len() && sources[e] == first && nodes[(#[trigger] edges[e]).target as int]
                == then
}

/// The names of the nodes of an order over indices.
pub open spec fn names_of(nodes: Seq<Seq<char>>, order: Seq<usize>) -> Seq<Seq<char>> {
    Seq::new(order.len(), |p: int| nodes[order[p] as int])
}

/// An order that is valid for the graph over indices is valid for the
/// constraints that the graph stands for.
pub proof fn lemma_schedule_of_names(
    systems: Seq<SpecSystemAttribute>,
    nodes: Seq<Seq<char>>,
    edges: Seq<Edge>,
    sources: Seq<Seq<char>>,
    order: Seq<usize>,
)
    requires
        stands_for(systems, nodes, edges, sources),
        valid_index_schedule(nodes.len() as int, edges, order),
    ensures
        valid_schedule(systems, names_of(nodes, order)),
{
    let names = names_of(nodes, order);
    assert forall|p: int, q: int| 0 <= p < names.len() && 0 <= q < names.len() && p != q implies names[p]
        != names[q] by {
        assert(order[p] != order[q]);
    }
    assert forall|first: Seq<char>, p: int|
        #![trigger is_edge(systems, first, names[p])]
        0 <= p < names.len() && is_edge(systems, first, names[p]) implies exists|q: int|
        0 <= q < p && #[trigger] names[q] == first by {
        let e = choose|e: int|
            0 <= e < edges.len() && sources[e] == first && nodes[(#[trigger] edges[e]).target as int]
                == names[p];
        assert(edges[e].target == order[p]);
        let q = choose|q: int| 0 <= q < p && #[trigger] order[q] == edges[e].source->0;
        assert(names[q] == first);
    }
    assert forall|name: Seq<char>|
        #![trigger is_node(systems, name)]
        is_node(systems, name) && !names.contains(name) implies exists|first: Seq<char>| #[trigger]
        is_edge(systems, first, name) && !names.contains(first) by {
        assert(nodes.contains(name));
        let a = choose|a: int| 0 <= a < nodes.len() && nodes[a] == name;
        if scheduled(order, a) {
            let p = choose|p: int| 0 <= p < order.len() && #[trigger] order[p] == a;
            assert(names[p] == name);
        }
        let e = choose|e: int|
            0 <= e < edges.len() && blocks(#[trigger] edges[e], a, scheduled_set(order));
        let first = sources[e];
        assert(is_edge(systems, first, nodes[edges[e].target as int]));
        if names.contains(first) {
            let q = choose|q: int| 0 <= q < names.len() && names[q] == first;
            assert(nodes.contains(nodes[order[q] as int]));
            match edges[e].source {
                Some(s) => {
                    assert(nodes[s as int] == nodes[order[q] as int]);
                    assert(s == order[q]);
                    assert(scheduled(order, s as int));
                },
                None => {},
            }
        }
    }
}

/// Index of `name` among `names`.
fn find_name(names: &Vec<String>, name: &str) -> (r: Option<usize>)
    ensures
        match r {
            Some(a) => a < names.len() && names[a as int]@ == name@,
            None => forall|a: int| 0 <= a < names.len() ==> names[a]@ != name@,
        },
{
    let mut a: usize = 0;
    while a < names.len()
        invariant
            a <= names.len(),
            forall|b: int| 0 <= b < a ==> names[b]@ != name@,
        decreases names.len() - a,
    {
        if str_equal(names[a].as_str(), name) {
            return Some(a);
        }
        a += 1;
    }
    None
}

/// Whether system `i` is the last of its name.
fn is_last_of_name(systems: &Vec<SystemAttribute>, i: usize) -> (r: bool)
    requires
        i < systems.len(),
    ensures
        r == is_effective(views(systems@), i as int),
{
    let mut j: usize = i + 1;
    while j < systems.len()
        invariant
            i < j <= systems.len(),
            forall|k: int| i < k < j ==> (#[trigger] views(systems@)[k]).name != views(systems@)[i as int].name,
        decreases systems.len() - j,
    {
        if str_equal(systems[j].name.as_str(), systems[i].name.as_str()) {
            assert(views(systems@)[j as int].name == views(systems@)[i as int].name);
            return false;
        }
        j += 1;
    }
    true
}

/// The systems that count, in the order declared: `eff` holds their indices.
pub open spec fn lists_effective(systems: Seq<SpecSystemAttribute>, eff: Seq<usize>) -> bool {
    &&& forall|t: int| 0 <= t < eff.len() ==> is_effective(systems, #[trigger] eff[t] as int)
    &&& forall|t: int, u: int| 0 <= t < u < eff.len() ==> eff[t] < eff[u]
    &&& forall|i: int| #[trigger]
        is_effective(systems, i) ==> exists|t: int| 0 <= t < eff.len() && #[trigger] eff[t] == i
}

/// The indices of the systems that count, in the order declared.
fn effective_systems(systems: &Vec<SystemAttribute>) -> (eff: Vec<usize>)
    ensures
        lists_effective(views(systems@), eff@),
{
    let ghost sys = views(systems@);
    let mut eff: Vec<usize> = Vec::new();
    let mut i: usize = 0;
    while i < systems.len()
        invariant
            i <= systems.len(),
            sys == views(systems@),
            forall|t: int| 0 <= t < eff.len() ==> #[trigger] eff[t] < i && is_effective(sys, eff[t] as int),
            forall|t: int, u: int| 0 <= t < u < eff.len() ==> eff[t] < eff[u],
            forall|k: int|
                0 <= k < i && #[trigger] is_effective(sys, k) ==> exists|t: int|
                    0 <= t < eff.len() && #[trigger] eff[t] == k,
        decreases systems.len() - i,
    {
        if is_last_of_name(systems, i) {
            let ghost before = eff@;
            eff.push(i);
            assert forall|k: int| 0 <= k < i + 1 && #[trigger] is_effective(sys, k) implies exists|
                t: int,
            | 0 <= t < eff.len() && #[trigger] eff[t] == k by {
                if k < i {
                    let t = choose|t: int| 0 <= t < before.len() && #[trigger] before[t] == k;
                    assert(eff[t] == k);
                } else {
                    assert(eff[before.len() as int] == k);
                }
            }
        }
        i += 1;
    }
    eff
}

/// What holds of the list of names that can be scheduled: first the names of
/// the systems that count, in order; then the names that only a `before`
/// constraint mentions.
pub open spec fn lists_nodes(
    systems: Seq<SpecSystemAttribute>,
    eff: Seq<usize>,
    nodes: Seq<Seq<char>>,
) -> bool {
    &&& eff.len() <= nodes.len()
    &&& nodes.no_duplicates()
    &&& forall|t: int| 0 <= t < eff.len() ==> #[trigger] nodes[t] == systems[eff[t] as int].name
    &&& forall|a: int| eff.len() <= a < nodes.len() ==> is_before_target(systems, #[trigger] nodes[a])
}

/// Every name that system `i` mentions under `before`, up to the `m`-th, is
/// among `nodes`.
pub open spec fn targets_listed(
    systems: Seq<SpecSystemAttribute>,
    i: int,
    m: int,
    nodes: Seq<Seq<char>>,
) -> bool {
    forall|j: int| 0 <= j < m ==> nodes.contains(#[trigger] systems[i].before[j])
}

proof fn lemma_contains_push(s: Seq<Seq<char>>, x: Seq<char>, y: Seq<char>)
    requires
        s.contains(y),
    ensures
        s.push(x).contains(y),
{
    let a = choose|a: int| 0 <= a < s.len() && s[a] == y;
    assert(s.push(x)[a] == y);
}

proof fn lemma_targets_listed_push(
    systems: Seq<SpecSystemAttribute>,
    i: int,
    m: int,
    nodes: Seq<Seq<char>>,
    x: Seq<char>,
)
    requires
        targets_listed(systems, i, m, nodes),
    ensures
        targets_listed(systems, i, m, nodes.push(x)),
{
    assert forall|j: int| 0 <= j < m implies nodes.push(x).contains(
        #[trigger] systems[i].before[j],
    ) by {
        lemma_contains_push(nodes, x, systems[i].before[j]);
    }
}

/// The names that can be scheduled.
fn schedulable_names(systems: &Vec<SystemAttribute>, eff: &Vec<usize>) -> (nodes: Vec<String>)
    requires
        lists_effective(views(systems@), eff@),
    ensures
        lists_nodes(views(systems@), eff@, texts(nodes@)),
        forall|t: int|
            0 <= t < eff.len() ==> targets_listed(
                views(systems@),
                #[trigger] eff[t] as int,
                views(systems@)[eff[t] as int].before.len() as int,
                texts(nodes@),
            ),
{
    let ghost sys = views(systems@);
    let mut nodes: Vec<String> = Vec::new();
    let mut t: usize = 0;
    while t < eff.len()
        invariant
            t <= eff.len(),
            sys == views(systems@),
            lists_effective(sys, eff@),
            nodes.len() == t,
            forall|u: int| 0 <= u < t ==> (#[trigger] nodes[u])@ == sys[eff[u] as int].name,
        decreases eff.len() - t,
    {
        assert(is_effective(sys, eff[t as int] as int));
        nodes.push(systems[eff[t]].name.clone());
        t += 1;
    }
    proof {
        let names = texts(nodes@);
        assert forall|a: int, b: int| 0 <= a < names.len() && 0 <= b < names.len() && a != b implies names[a]
            != names[b] by {
            assert(names[a] == nodes[a]@ && names[b] == nodes[b]@);
            assert(is_effective(sys, eff[a] as int) && is_effective(sys, eff[b] as int));
            if a < b {
                assert(eff[a] < eff[b]);
                assert(sys[eff[b] as int].name != sys[eff[a] as int].name);
            } else {
                assert(eff[b] < eff[a]);
                assert(sys[eff[a] as int].name != sys[eff[b] as int].name);
            }
        }
        assert(lists_nodes(sys, eff@, names));
    }
    let mut t: usize = 0;
    while t < eff.len()
        invariant
            t <= eff.len(),
            sys == views(systems@),
            lists_effective(sys, eff@),
            lists_nodes(sys, eff@, texts(nodes@)),
            forall|u: int|
                0 <= u < t ==> targets_listed(
                    sys,
                    #[trigger] eff[u] as int,
                    sys[eff[u] as int].before.len() as int,
                    texts(nodes@),
                ),
        decreases eff.len() - t,
    {
        assert(is_effective(sys, eff[t as int] as int));
        let i = eff[t];
        let attr = &systems[i];
        assert(sys[i as int] == attr@);
        let mut j: usize = 0;
        while j < attr.before.len()
            invariant
                j <= attr.before.len(),
                t < eff.len(),
                i == eff[t as int],
                i < systems.len(),
                *attr == systems[i as int],
                sys == views(systems@),
                lists_effective(sys, eff@),
                lists_nodes(sys, eff@, texts(nodes@)),
                forall|u: int|
                    0 <= u < t ==> targets_listed(
                        sys,
                        #[trigger] eff[u] as int,
                        sys[eff[u] as int].before.len() as int,
                        texts(nodes@),
                    ),
                targets_listed(sys, i as int, j as int, texts(nodes@)),
            decreases attr.before.len() - j,
        {
            let ghost names = texts(nodes@);
            let ghost dep = sys[i as int].before[j as int];
            assert(sys[i as int] == attr@);
            assert(dep == attr.before[j as int]@);
            match find_name(&nodes, attr.before[j].as_str()) {
                Some(a) => {
                    assert(names[a as int] == dep);
                },
                None => {
                    nodes.push(attr.before[j].clone());
                    proof {
                        let longer = texts(nodes@);
                        assert(longer =~= names.push(dep));
                        assert(!names.contains(dep)) by {
                            if names.contains(dep) {
                                let a = choose|a: int| 0 <= a < names.len() && names[a] == dep;
                                assert(nodes[a]@ == dep);
                            }
                        }
                        assert forall|a: int, b: int|
                            0 <= a < longer.len() && 0 <= b < longer.len() && a != b implies longer[a]
                            != longer[b] by {
                            if a < names.len() && b < names.len() {
                                assert(names[a] != names[b]);
                            } else if a < names.len() {
                                assert(names.contains(names[a]));
                            } else {
                                assert(names.contains(names[b]));
                            }
                        }
                        assert(is_before_target(sys, dep));
                        assert forall|u: int| 0 <= u < t implies targets_listed(
                            sys,
                            #[trigger] eff[u] as int,
                            sys[eff[u] as int].before.len() as int,
                            longer,
                        ) by {
                            lemma_targets_listed_push(
                                sys,
                                eff[u] as int,
                                sys[eff[u] as int].before.len() as int,
                                names,
                                dep,
                            );
                        }
                        lemma_targets_listed_push(sys, i as int, j as int, names, dep);
                        assert(longer[names.len() as int] == dep);
                    }
                },
            }
            j += 1;
        }
        t += 1;
    }
    nodes
}

/// Whether some edge stands for the constraint that `first` run before `then`.
pub open spec fn has_edge(
    nodes: Seq<Seq<char>>,
    edges: Seq<Edge>,
    sources: Seq<Seq<char>>,
    first: Seq<char>,
    then: Seq<char>,
) -> bool {
    exists|e: int|
        0 <= e < edges.len() && sources[e] == first && nodes[(#[trigger] edges[e]).target as int]
            == then
}

/// Whether edge `e` stands for a constraint, with the right source.
pub open spec fn edge_stands(
    systems: Seq<SpecSystemAttribute>,
    nodes: Seq<Seq<char>>,
    edge: Edge,
    source: Seq<char>,
) -> bool {
    &&& 0 <= edge.target < nodes.len()
    &&& is_edge(systems, source, nodes[edge.target as int])
    &&& match edge.source {
        Some(s) => 0 <= s < nodes.len() && nodes[s as int] == source,
        None => !nodes.contains(source),
    }
}

/// The first `m` names that system `i` mentions under `after` have an edge each.
pub open spec fn after_covered(
    systems: Seq<SpecSystemAttribute>,
    i: int,
    m: int,
    nodes: Seq<Seq<char>>,
    edges: Seq<Edge>,
    sources: Seq<Seq<char>>,
) -> bool {
    forall|j: int|
        0 <= j < m ==> has_edge(nodes, edges, sources, #[trigger] systems[i].after[j], systems[i].name)
}

/// The first `m` names that system `i` mentions under `before` have an edge each.
pub open spec fn before_covered(
    systems: Seq<SpecSystemAttribute>,
    i: int,
    m: int,
    nodes: Seq<Seq<char>>,
    edges: Seq<Edge>,
    sources: Seq<Seq<char>>,
) -> bool {
    forall|j: int|
        0 <= j < m ==> has_edge(nodes, edges, sources, systems[i].name, #[trigger] systems[i].before[j])
}

proof fn lemma_has_edge_push(
    nodes: Seq<Seq<char>>,
    edges: Seq<Edge>,
    sources: Seq<Seq<char>>,
    edge: Edge,
    source: Seq<char>,
    first: Seq<char>,
    then: Seq<char>,
)
    requires
        edges.len() == sources.len(),
        has_edge(nodes, edges, sources, first, then),
    ensures
        has_edge(nodes, edges.push(edge), sources.push(source), first, then),
{
    let e = choose|e: int|
        0 <= e < edges.len() && sources[e] == first && nodes[(#[trigger] edges[e]).target as int]
            == then;
    assert(edges.push(edge)[e] == edges[e]);
    assert(sources.push(source)[e] == sources[e]);
}

proof fn lemma_covered_push(
    systems: Seq<SpecSystemAttribute>,
    i: int,
    m_after: int,
    m_before: int,
    nodes: Seq<Seq<char>>,
    edges: Seq<Edge>,
    sources: Seq<Seq<char>>,
    edge: Edge,
    source: Seq<char>,
)
    requires
        edges.len() == sources.len(),
        after_covered(systems, i, m_after, nodes, edges, sources),
        before_covered(systems, i, m_before, nodes, edges, sources),
    ensures
        after_covered(systems, i, m_after, nodes, edges.push(edge), sources.push(source)),
        before_covered(systems, i, m_before, nodes, edges.push(edge), sources.push(source)),
{
    assert forall|j: int| 0 <= j < m_after implies has_edge(
        nodes,
        edges.push(edge),
        sources.push(source),
        #[trigger] systems[i].after[j],
        systems[i].name,
    ) by {
        lemma_has_edge_push(nodes, edges, sources, edge, source, systems[i].after[j], systems[i].name);
    }
    assert forall|j: int| 0 <= j < m_before implies has_edge(
        nodes,
        edges.push(edge),
        sources.push(source),
        systems[i].name,
        #[trigger] systems[i].before[j],
    ) by {
        lemma_has_edge_push(nodes, edges, sources, edge, source, systems[i].name, systems[i].before[j]);
    }
}

/// What holds while the edges are collected: each edge stands for a
/// constraint, and the systems before the `t`-th that counts are covered.
pub open spec fn edges_so_far(
    systems: Seq<SpecSystemAttribute>,
    eff: Seq<usize>,
    t: int,
    nodes: Seq<Seq<char>>,
    edges: Seq<Edge>,
    sources: Seq<Seq<char>>,
) -> bool {
    &&& edges.len() == sources.len()
    &&& forall|e: int|
        0 <= e < edges.len() ==> edge_stands(systems, nodes, #[trigger] edges[e], sources[e])
    &&& forall|u: int|
        0 <= u < t ==> after_covered(
            systems,
            #[trigger] eff[u] as int,
            systems[eff[u] as int].after.len() as int,
            nodes,
            edges,
            sources,
        ) && before_covered(
            systems,
            eff[u] as int,
            systems[eff[u] as int].before.len() as int,
            nodes,
            edges,
            sources,
        )
}

proof fn lemma_edges_so_far_push(
    systems: Seq<SpecSystemAttribute>,
    eff: Seq<usize>,
    t: int,
    nodes: Seq<Seq<char>>,
    edges: Seq<Edge>,
    sources: Seq<Seq<char>>,
    edge: Edge,
    source: Seq<char>,
)
    requires
        edges_so_far(systems, eff, t, nodes, edges, sources),
        edge_stands(systems, nodes, edge, source),
    ensures
        edges_so_far(systems, eff, t, nodes, edges.push(edge), sources.push(source)),
{
    let edges2 = edges.push(edge);
    let sources2 = sources.push(source);
    assert forall|e: int| 0 <= e < edges2.len() implies edge_stands(
        systems,
        nodes,
        #[trigger] edges2[e],
        sources2[e],
    ) by {
        if e < edges.len() {
            assert(edges2[e] == edges[e] && sources2[e] == sources[e]);
        }
    }
    assert forall|u: int| 0 <= u < t implies after_covered(
        systems,
        #[trigger] eff[u] as int,
        systems[eff[u] as int].after.len() as int,
        nodes,
        edges2,
        sources2,
    ) && before_covered(
        systems,
        eff[u] as int,
        systems[eff[u] as int].before.len() as int,
        nodes,
        edges2,
        sources2,
    ) by {
        lemma_covered_push(
            systems,
            eff[u] as int,
            systems[eff[u] as int].after.len() as int,
            systems[eff[u] as int].before.len() as int,
            nodes,
            edges,
            sources,
            edge,
            source,
        );
    }
}

/// The edges of the graph over indices, with the name of each edge's source.
fn constraint_edges(systems: &Vec<SystemAttribute>, eff: &Vec<usize>, nodes: &Vec<String>) -> (r: (
    Vec<Edge>,
    Ghost<Seq<Seq<char>>>,
))
    requires
        lists_effective(views(systems@), eff@),
        lists_nodes(views(systems@), eff@, texts(nodes@)),
        forall|t: int|
            0 <= t < eff.len() ==> targets_listed(
                views(systems@),
                #[trigger] eff[t] as int,
                views(systems@)[eff[t] as int].before.len() as int,
                texts(nodes@),
            ),
    ensures
        edges_so_far(views(systems@), eff@, eff.len() as int, texts(nodes@), r.0@, r.1@),
{
    let ghost sys = views(systems@);
    let ghost names = texts(nodes@);
    let mut edges: Vec<Edge> = Vec::new();
    let ghost mut sources: Seq<Seq<char>> = Seq::empty();
    let mut t: usize = 0;
    while t < eff.len()
        invariant
            t <= eff.len(),
            sys == views(systems@),
            names == texts(nodes@),
            lists_effective(sys, eff@),
            lists_nodes(sys, eff@, names),
            forall|u: int|
                0 <= u < eff.len() ==> targets_listed(
                    sys,
                    #[trigger] eff[u] as int,
                    sys[eff[u] as int].before.len() as int,
                    names,
                ),
            edges_so_far(sys, eff@, t as int, names, edges@, sources),
        decreases eff.len() - t,
    {
        assert(is_effective(sys, eff[t as int] as int));
        let i = eff[t];
        let attr = &systems[i];
        assert(sys[i as int] == attr@);
        assert(names[t as int] == sys[i as int].name);
        let mut j: usize = 0;
        while j < attr.after.len()
            invariant
                j <= attr.after.len(),
                t < eff.len(),
                i == eff[t as int],
                i < systems.len(),
                *attr == systems[i as int],
                is_effective(sys, i as int),
                sys == views(systems@),
                names == texts(nodes@),
                t < names.len(),
                names[t as int] == sys[i as int].name,
                edges_so_far(sys, eff@, t as int, names, edges@, sources),
                after_covered(sys, i as int, j as int, names, edges@, sources),
            decreases attr.after.len() - j,
        {
            let ghost dep = sys[i as int].after[j as int];
            assert(sys[i as int] == attr@);
            assert(dep == attr.after[j as int]@);
            let source = find_name(nodes, attr.after[j].as_str());
            let edge = Edge { source, target: t };
            proof {
                assert(sys[i as int].after.contains(dep));
                assert(constrains(sys[i as int], dep, names[t as int]));
                assert(is_edge(sys, dep, names[t as int]));
                match source {
                    Some(a) => {
                        assert(names[a as int] == dep);
                    },
                    None => {
                        if names.contains(dep) {
                            let a = choose|a: int| 0 <= a < names.len() && names[a] == dep;
                            assert(nodes[a]@ == dep);
                        }
                    },
                }
                assert(edge_stands(sys, names, edge, dep));
                lemma_edges_so_far_push(sys, eff@, t as int, names, edges@, sources, edge, dep);
                lemma_covered_push(sys, i as int, j as int, 0, names, edges@, sources, edge, dep);
                assert(has_edge(names, edges@.push(edge), sources.push(dep), dep, sys[i as int].name)) by {
                    assert(edges@.push(edge)[edges.len() as int] == edge);
                    assert(sources.push(dep)[edges.len() as int] == dep);
                }
                sources = sources.push(dep);
            }
            edges.push(edge);
            j += 1;
        }
        let mut j: usize = 0;
        while j < attr.before.len()
            invariant
                j <= attr.before.len(),
                t < eff.len(),
                i == eff[t as int],
                i < systems.len(),
                *attr == systems[i as int],
                is_effective(sys, i as int),
                sys == views(systems@),
                names == texts(nodes@),
                t < names.len(),
                names[t as int] == sys[i as int].name,
                targets_listed(sys, i as int, sys[i as int].before.len() as int, names),
                edges_so_far(sys, eff@, t as int, names, edges@, sources),
                after_covered(
                    sys,
                    i as int,
                    sys[i as int].after.len() as int,
                    names,
                    edges@,
                    sources,
                ),
                before_covered(sys, i as int, j as int, names, edges@, sources),
            decreases attr.before.len() - j,
        {
            let ghost dep = sys[i as int].before[j as int];
            assert(sys[i as int] == attr@);
            assert(dep == attr.before[j as int]@);
            assert(names.contains(dep));
            match find_name(nodes, attr.before[j].as_str()) {
                Some(target) => {
                    let edge = Edge { source: Some(t), target };
                    let ghost first = sys[i as int].name;
                    proof {
                        assert(names[target as int] == dep);
                        assert(sys[i as int].before.contains(dep));
                        assert(constrains(sys[i as int], first, dep));
                        assert(is_edge(sys, first, dep));
                        assert(edge_stands(sys, names, edge, first));
                        lemma_edges_so_far_push(
                            sys,
                            eff@,
                            t as int,
                            names,
                            edges@,
                            sources,
                            edge,
                            first,
                        );
                        lemma_covered_push(
                            sys,
                            i as int,
                            sys[i as int].after.len() as int,
                            j as int,
                            names,
                            edges@,
                            sources,
                            edge,
                            first,
                        );
                        assert(has_edge(names, edges@.push(edge), sources.push(first), first, dep)) by {
                            assert(edges@.push(edge)[edges.len() as int] == edge);
                            assert(sources.push(first)[edges.len() as int] == first);
                        }
                        sources = sources.push(first);
                    }
                    edges.push(edge);
                },
                None => {
                    proof {
                        let a = choose|a: int| 0 <= a < names.len() && names[a] == dep;
                        assert(nodes[a]@ == dep);
                        assert(false);
                    }
                },
            }
            j += 1;
        }
        t += 1;
    }
    (edges, Ghost(sources))
}

/// The graph over indices that was built stands for the constraints.
proof fn lemma_graph_stands_for(
    systems: Seq<SpecSystemAttribute>,
    eff: Seq<usize>,
    nodes: Seq<Seq<char>>,
    edges: Seq<Edge>,
    sources: Seq<Seq<char>>,
)
    requires
        lists_effective(systems, eff),
        lists_nodes(systems, eff, nodes),
        forall|t: int|
            0 <= t < eff.len() ==> targets_listed(
                systems,
                #[trigger] eff[t] as int,
                systems[eff[t] as int].before.len() as int,
                nodes,
            ),
        edges_so_far(systems, eff, eff.len() as int, nodes, edges, sources),
    ensures
        stands_for(systems, nodes, edges, sources),
{
    assert forall|a: int| 0 <= a < nodes.len() implies is_node(systems, #[trigger] nodes[a]) by {
        if a < eff.len() {
            assert(is_effective(systems, eff[a] as int));
            assert(systems[eff[a] as int].name == nodes[a]);
        }
    }
    assert forall|name: Seq<char>| #[trigger] is_node(systems, name) implies nodes.contains(name) by {
        if is_declared(systems, name) {
            let i = choose|i: int| 0 <= i < systems.len() && (#[trigger] systems[i]).name == name;
            let last = lemma_last_of_name(systems, i);
            let t = choose|t: int| 0 <= t < eff.len() && #[trigger] eff[t] == last;
            assert(nodes[t] == name);
        } else {
            let (i, j) = choose|i: int, j: int|
                is_effective(systems, i) && 0 <= j < systems[i].before.len()
                    && #[trigger] systems[i].before[j] == name;
            let t = choose|t: int| 0 <= t < eff.len() && #[trigger] eff[t] == i;
            assert(targets_listed(
                systems,
                eff[t] as int,
                systems[eff[t] as int].before.len() as int,
                nodes,
            ));
        }
    }
    assert forall|e: int| 0 <= e < edges.len() implies 0 <= (#[trigger] edges[e]).target < nodes.len()
        && (edges[e].source matches Some(s) ==> 0 <= s < nodes.len()) by {
        assert(edge_stands(systems, nodes, edges[e], sources[e]));
    }
    assert forall|e: int| 0 <= e < edges.len() implies is_edge(
        systems,
        sources[e],
        nodes[(#[trigger] edges[e]).target as int],
    ) && match edges[e].source {
        Some(s) => nodes[s as int] == sources[e],
        None => !nodes.contains(sources[e]),
    } by {
        assert(edge_stands(systems, nodes, edges[e], sources[e]));
    }
    assert forall|first: Seq<char>, then: Seq<char>| #[trigger]
        is_edge(systems, first, then) implies exists|e: int|
        0 <= e < edges.len() && sources[e] == first && nodes[(#[trigger] edges[e]).target as int]
            == then by {
        let i = choose|i: int|
            is_effective(systems, i) && constrains(#[trigger] systems[i], first, then);
        let t = choose|t: int| 0 <= t < eff.len() && #[trigger] eff[t] == i;
        assert(after_covered(
            systems,
            eff[t] as int,
            systems[eff[t] as int].after.len() as int,
            nodes,
            edges,
            sources,
        ));
        if systems[i].name == then && systems[i].after.contains(first) {
            let j = choose|j: int| 0 <= j < systems[i].after.len() && systems[i].after[j] == first;
            assert(has_edge(nodes, edges, sources, systems[i].after[j], systems[i].name));
        } else {
            let j = choose|j: int| 0 <= j < systems[i].before.len() && systems[i].before[j] == then;
            assert(has_edge(nodes, edges, sources, systems[i].name, systems[i].before[j]));
        }
    }
}

/// The order in which the systems run, by name.
///
/// Where several systems bear one name, the constraints of the last count.
/// A name that only an `after` constraint mentions never runs, and neither
/// does what waits for it; a name that only a `before` constraint mentions
/// takes its place in the order.
pub fn system_order(systems: &Vec<SystemAttribute>) -> (order: Vec<String>)
    ensures
        valid_schedule(views(systems@), texts(order@)),
        is_acyclic(views(systems@)) && is_closed(views(systems@)) ==> {
            &&& forall|name: Seq<char>| #[trigger]
                is_declared(views(systems@), name) ==> texts(order@).contains(name)
            &&& forall|first: Seq<char>, then: Seq<char>| #[trigger]
                is_edge(views(systems@), first, then) ==> exists|q: int, p: int|
                    0 <= q < p < order.len() && order[q]@ == first && order[p]@ == then
        },
{
    let eff = effective_systems(systems);
    let nodes = schedulable_names(systems, &eff);
    let (edges, Ghost(sources)) = constraint_edges(systems, &eff, &nodes);
    proof {
        lemma_graph_stands_for(views(systems@), eff@, texts(nodes@), edges@, sources);
    }
    let indices = kahn_order(nodes.len(), &edges);
    proof {
        lemma_schedule_of_names(views(systems@), texts(nodes@), edges@, sources, indices@);
    }
    let mut order: Vec<String> = Vec::new();
    let mut p: usize = 0;
    while p < indices.len()
        invariant
            p <= indices.len(),
            order.len() == p,
            forall|q: int| 0 <= q < indices.len() ==> 0 <= #[trigger] indices[q] < nodes.len(),
            forall|q: int| 0 <= q < p ==> order[q]@ == nodes[indices[q] as int]@,
        decreases indices.len() - p,
    {
        order.push(nodes[indices[p]].clone());
        p += 1;
    }
    assert(texts(order@) =~= names_of(texts(nodes@), indices@));
    proof {
        let sys = views(systems@);
        let names = texts(order@);
        if is_acyclic(sys) && is_closed(sys) {
            lemma_acyclic_schedule_is_topological(sys, names);
            assert forall|first: Seq<char>, then: Seq<char>| #[trigger]
                is_edge(sys, first, then) implies exists|q: int, p: int|
                0 <= q < p < order.len() && order[q]@ == first && order[p]@ == then by {
                let (q, p) = choose|q: int, p: int|
                    0 <= q < p < names.len() && names[q] == first && names[p] == then;
                assert(order[q]@ == first && order[p]@ == then);
            }
        }
    }
    order
}

/// The functions of an item that carry a system attribute, in order.
pub open spec fn spec_item_systems(item: SpecItem) -> Seq<SpecFunctionDef> {
    match item {
        SpecItem::Function(f) => if f.attribute is Some {
            seq![f]
        } else {
            Seq::empty()
        },
        SpecItem::System(s) => s.functions.filter(|f: SpecFunctionDef| f.attribute is Some),
        _ => Seq::empty(),
    }
}

/// The functions of the first `n` items that carry a system attribute, in order.
pub open spec fn spec_system_functions(items: Seq<SpecItem>, n: nat) -> Seq<SpecFunctionDef>
    decreases n,
{
    if n == 0 || n > items.len() {
        Seq::empty()
    } else {
        spec_system_functions(items, (n - 1) as nat) + spec_item_systems(items[n - 1])
    }
}

/// The system attributes of a list of functions that carry one.
pub open spec fn spec_attributes(functions: Seq<SpecFunctionDef>) -> Seq<SpecSystemAttribute> {
    functions.map_values(|f: SpecFunctionDef| f.attribute->0)
}

/// The first function of the system `name`, if there is one.
pub open spec fn spec_find_system(functions: Seq<SpecFunctionDef>, name: Seq<char>) -> Option<
    SpecFunctionDef,
>
    decreases functions.len(),
{
    if functions.len() == 0 {
        None
    } else if functions[0].attribute is Some && functions[0].attribute->0.name == name {
        Some(functions[0])
    } else {
        spec_find_system(functions.drop_first(), name)
    }
}

/// What stands for an argument in the call of a system: a note that names
/// what is to be passed.
pub open spec fn spec_argument_note(p: SpecField) -> Seq<char> {
    if p.ty is Query {
        "/* TODO: construct query<...> from ECS */"@
    } else {
        "/* TODO: "@ + p.name + " */"@
    }
}

/// The line of the driver that calls the system `name`: a call of the
/// system's first function; nothing where no system bears the name.
pub open spec fn spec_system_call(functions: Seq<SpecFunctionDef>, name: Seq<char>) -> Seq<char> {
    match spec_find_system(functions, name) {
        Some(f) => "    "@ + f.name + "("@ + spec_join(
            f.params.map_values(|p: SpecField| spec_argument_note(p)),
            ", "@,
        ) + ");\n"@,
        None => Seq::empty(),
    }
}

/// The driver that runs the systems in the order `order`.
pub open spec fn spec_scheduler_text(functions: Seq<SpecFunctionDef>, order: Seq<Seq<char>>) -> Seq<
    char,
> {
    "// System Scheduler - runs systems in dependency order\n"@ + "void run_systems() {\n"@
        + spec_concat(order.map_values(|name: Seq<char>| spec_system_call(functions, name)))
        + "}\n\n"@
}

/// Whether a text is the driver for some valid order of the systems.
pub open spec fn is_scheduler_text(functions: Seq<SpecFunctionDef>, text: Seq<char>) -> bool {
    exists|order: Seq<Seq<char>>|
        valid_schedule(spec_attributes(functions), order) && text == #[trigger] spec_scheduler_text(
            functions,
            order,
        )
}

fn type_is_query(t: &Type) -> (r: bool)
    ensures
        r == (t@ is Query),
{
    match t {
        Type::Query(_) => true,
        _ => false,
    }
}

/// The call of a system's function.
fn system_call(f: &FunctionDef) -> (r: String)
    ensures
        r@ == "    "@ + f@.name + "("@ + spec_join(
            f@.params.map_values(|p: SpecField| spec_argument_note(p)),
            ", "@,
        ) + ");\n"@,
{
    let mut notes: Vec<String> = Vec::new();
    let mut i: usize = 0;
    while i < f.params.len()
        invariant
            i <= f.params.len(),
            notes.len() == i,
            forall|j: int| 0 <= j < i ==> notes[j]@ == spec_argument_note(f.params[j]@),
        decreases f.params.len() - i,
    {
        let p = &f.params[i];
        if type_is_query(&p.ty) {
            notes.push("/* TODO: construct query<...> from ECS */".to_owned());
        } else {
            let mut note = "/* TODO: ".to_owned();
            note.append(p.name.as_str());
            note.append(" */");
            notes.push(note);
        }
        i += 1;
    }
    assert(texts(notes@) =~= f@.params.map_values(|p: SpecField| spec_argument_note(p)));
    let mut out = "    ".to_owned();
    out.append(f.name.as_str());
    out.append("(");
    let joined = join(&notes, ", ");
    out.append(joined.as_str());
    out.append(");\n");
    out
}

/// The models of a list of borrowed functions.
pub open spec fn borrowed_views(functions: Seq<&FunctionDef>) -> Seq<SpecFunctionDef> {
    functions.map_values(|f: &FunctionDef| f@)
}

/// The line of the driver that calls the system `name`.
fn system_call_of(functions: &Vec<&FunctionDef>, name: &str) -> (r: String)
    ensures
        r@ == spec_system_call(borrowed_views(functions@), name@),
{
    let ghost all = borrowed_views(functions@);
    let mut i: usize = 0;
    assert(all.skip(0) =~= all);
    while i < functions.len()
        invariant
            i <= functions.len(),
            all == borrowed_views(functions@),
            spec_find_system(all, name@) == spec_find_system(all.skip(i as int), name@),
        decreases functions.len() - i,
    {
        let f = functions[i];
        proof {
            assert(all.skip(i as int)[0] == f@);
            assert(all.skip(i as int).drop_first() =~= all.skip(i + 1));
        }
        let found = match &f.attribute {
            Some(a) => str_equal(a.name.as_str(), name),
            None => false,
        };
        if found {
            return system_call(f);
        }
        i += 1;
    }
    assert(all.skip(functions.len() as int).len() == 0);
    String::new()
}

impl CodeGenerator {
    /// The functions of a program that carry a system attribute, in order.
    pub fn collect_system_functions<'a>(&self, program: &'a Program) -> (r: Vec<&'a FunctionDef>)
        ensures
            borrowed_views(r@) == spec_system_functions(program@, program@.len()),
            forall|i: int| 0 <= i < r.len() ==> (#[trigger] r[i]).attribute is Some,
    {
        let mut out: Vec<&'a FunctionDef> = Vec::new();
        let mut i: usize = 0;
        while i < program.items.len()
            invariant
                i <= program.items.len(),
                borrowed_views(out@) == spec_system_functions(program@, i as nat),
                forall|k: int| 0 <= k < out.len() ==> (#[trigger] out[k]).attribute is Some,
            decreases program.items.len() - i,
        {
            assert(program@[i as int] == program.items[i as int]@);
            let ghost before = borrowed_views(out@);
            match &program.items[i] {
                Item::Function(f) => {
                    if f.attribute.is_some() {
                        out.push(f);
                        assert(borrowed_views(out@) =~= before + seq![f@]);
                    } else {
                        assert(borrowed_views(out@) =~= before + Seq::<SpecFunctionDef>::empty());
                    }
                },
                Item::System(s) => {
                    let ghost members = views(s.functions@);
                    let mut k: usize = 0;
                    assert(members.take(0).filter(|f: SpecFunctionDef| f.attribute is Some)
                        =~= Seq::<SpecFunctionDef>::empty()) by {
                        reveal(Seq::filter);
                    }
                    assert(borrowed_views(out@) =~= before + Seq::<SpecFunctionDef>::empty());
                    while k < s.functions.len()
                        invariant
                            k <= s.functions.len(),
                            members == views(s.functions@),
                            borrowed_views(out@) == before + members.take(k as int).filter(
                                |f: SpecFunctionDef| f.attribute is Some,
                            ),
                            forall|m: int| 0 <= m < out.len() ==> (#[trigger] out[m]).attribute is Some,
                        decreases s.functions.len() - k,
                    {
                        let f = &s.functions[k];
                        let ghost so_far = borrowed_views(out@);
                        proof {
                            reveal(Seq::filter);
                            assert(members.take(k + 1).drop_last() =~= members.take(k as int));
                            assert(members.take(k + 1).last() == f@);
                        }
                        if f.attribute.is_some() {
                            out.push(f);
                            assert(borrowed_views(out@) =~= so_far.push(f@));
                        }
                        k += 1;
                    }
                    assert(members.take(s.functions.len() as int) =~= members);
                },
                _ => {
                    assert(borrowed_views(out@) =~= before + Seq::<SpecFunctionDef>::empty());
                },
            }
            i += 1;
        }
        out
    }

    /// The driver that runs the systems in the order `order`.
    pub fn scheduler_text(&self, system_functions: &Vec<&FunctionDef>, order: &Vec<String>) -> (r:
        String)
        ensures
            r@ == spec_scheduler_text(borrowed_views(system_functions@), texts(order@)),
    {
        let ghost functions = borrowed_views(system_functions@);
        let ghost calls = texts(order@).map_values(
            |name: Seq<char>| spec_system_call(functions, name),
        );
        let mut out = "// System Scheduler - runs systems in dependency order\n".to_owned();
        out.append("void run_systems() {\n");
        let ghost head = out@;
        let mut i: usize = 0;
        while i < order.len()
            invariant
                i <= order.len(),
                functions == borrowed_views(system_functions@),
                calls == texts(order@).map_values(
                    |name: Seq<char>| spec_system_call(functions, name),
                ),
                out@ == head + spec_concat(calls.take(i as int)),
            decreases order.len() - i,
        {
            let call = system_call_of(system_functions, order[i].as_str());
            out.append(call.as_str());
            proof {
                lemma_concat_push(calls.take(i as int), calls[i as int]);
                assert(calls.take(i + 1) =~= calls.take(i as int).push(calls[i as int]));
            }
            i += 1;
        }
        assert(calls.take(order.len() as int) =~= calls);
        out.append("}\n\n");
        out
    }

    /// The system attributes of a list of functions that carry one.
    pub fn system_attributes(&self, system_functions: &Vec<&FunctionDef>) -> (r: Vec<SystemAttribute>)
        requires
            forall|i: int|
                0 <= i < system_functions.len() ==> (#[trigger] system_functions[i]).attribute is Some,
        ensures
            views(r@) == spec_attributes(borrowed_views(system_functions@)),
    {
        let mut out: Vec<SystemAttribute> = Vec::new();
        let mut i: usize = 0;
        while i < system_functions.len()
            invariant
                i <= system_functions.len(),
                out.len() == i,
                forall|k: int|
                    0 <= k < system_functions.len() ==> (#[trigger] system_functions[k]).attribute is Some,
                forall|k: int| 0 <= k < i ==> out[k]@ == system_functions[k]@.attribute->0,
            decreases system_functions.len() - i,
        {
            match &system_functions[i].attribute {
                Some(a) => {
                    out.push(clone_attribute(a));
                },
                None => {},
            }
            i += 1;
        }
        assert(views(out@) =~= spec_attributes(borrowed_views(system_functions@)));
        out
    }

    /// The driver that runs the systems in an order that their constraints admit.
    pub fn generate_system_scheduler(&self, system_functions: &Vec<&FunctionDef>) -> (r: String)
        requires
            forall|i: int|
                0 <= i < system_functions.len() ==> (#[trigger] system_functions[i]).attribute is Some,
        ensures
            is_scheduler_text(borrowed_views(system_functions@), r@),
    {
        let attributes = self.system_attributes(system_functions);
        let order = system_order(&attributes);
        let text = self.scheduler_text(system_functions, &order);
        assert(text@ == spec_scheduler_text(borrowed_views(system_functions@), texts(order@)));
        text
    }
}

/// Copies a list of names.
fn clone_names(names: &Vec<String>) -> (r: Vec<String>)
    ensures
        views(r@) == views(names@),
{
    let mut out: Vec<String> = Vec::new();
    let mut i: usize = 0;
    while i < names.len()
        invariant
            i <= names.len(),
            out.len() == i,
            forall|k: int| 0 <= k < i ==> out[k]@ == names[k]@,
        decreases names.len() - i,
    {
        out.push(names[i].clone());
        i += 1;
    }
    assert(views(out@) =~= views(names@));
    out
}

/// Copies a system attribute.
pub fn clone_attribute(a: &SystemAttribute) -> (r: SystemAttribute)
    ensures
        r@ == a@,
{
    SystemAttribute {
        name: a.name.clone(),
        after: clone_names(&a.after),
        before: clone_names(&a.before),
    }
}

} // verus!
