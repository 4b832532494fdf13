//! The scheduler: how often each node is needed by the courses that are
//! wanted, which alternative of a group to take, and the terms in which
//! the requirements of the wanted courses can be taken.

use vstd::prelude::*;
use petgraph::graph::Graph;
use petgraph::Directed;
use crate::course::{
    CourseId,
    CourseIdView,
    Dependency,
    Node,
    NodeType,
    NodeTypeView,
    NodeView,
    Relation,
};
use crate::course_graph::{CourseGraph, find_node, node_views};
use crate::course_set::{CourseSet, SET_LIMIT};
use crate::digraph::{
    Edge,
    graph_edges,
    graph_node,
    graph_node_count,
    graph_nodes,
    graph_out_edges,
    graph_set_val,
    outgoing,
};

verus! {

/// Why the scheduler gives no result.
#[derive(Clone, Copy, Debug, PartialEq, Eq, Structural)]
pub enum ScheduleError {
    /// A chain of requirements is longer than the graph has nodes: it
    /// leads back into itself.
    CyclicRequirements,
    /// A weight would pass the greatest that a node can hold.
    WeightOverflow,
    /// A term would take more courses than a set can hold.
    SetFull,
}

/// The greatest weight that a node can hold.
pub open spec fn weight_limit() -> int {
    0xffff
}

/// The weights of a list of nodes.
pub open spec fn weights(nodes: Seq<NodeView>) -> Seq<int> {
    nodes.map_values(|n: NodeView| n.val)
}

/// `nodes` with the weights `vals`.
pub open spec fn with_weights(nodes: Seq<NodeView>, vals: Seq<int>) -> Seq<NodeView> {
    Seq::new(nodes.len(), |i: int| NodeView { ntype: nodes[i].ntype, val: vals[i] })
}

/// `vals` with `by` added to the weight of `node`.
pub open spec fn bump(vals: Seq<int>, node: int, by: int) -> Result<Seq<int>, ScheduleError> {
    if vals[node] + by > weight_limit() {
        Err(ScheduleError::WeightOverflow)
    } else {
        Ok(vals.update(node, vals[node] + by))
    }
}

/// Hands the weight of `parent` down the edges `out`, which leave
/// `parent`: each target gains the weight that `parent` has at that
/// moment, and hands its own new weight down before the next edge is
/// taken. `fuel` bounds the length of a chain of edges.
pub open spec fn spread(
    edges: Seq<Edge>,
    vals: Seq<int>,
    parent: int,
    out: Seq<(int, Relation)>,
    fuel: nat,
) -> Result<Seq<int>, ScheduleError>
    decreases fuel, out.len(),
{
    if out.len() == 0 {
        Ok(vals)
    } else if fuel == 0 {
        Err(ScheduleError::CyclicRequirements)
    } else {
        let target = out[0].0;
        match bump(vals, target, vals[parent]) {
            Err(e) => Err(e),
            Ok(v1) => match spread(edges, v1, target, outgoing(edges, target), (fuel - 1) as nat) {
                Err(e) => Err(e),
                Ok(v2) => spread(edges, v2, parent, out.drop_first(), fuel),
            },
        }
    }
}

/// Counts the wanted courses from position `i` on: each gains one, and
/// hands its weight down to everything that it requires.
pub open spec fn count_from(
    edges: Seq<Edge>,
    vals: Seq<int>,
    desired: Seq<usize>,
    i: int,
    fuel: nat,
) -> Result<Seq<int>, ScheduleError>
    decreases desired.len() - i,
{
    if i < 0 || i >= desired.len() {
        Ok(vals)
    } else {
        let node = desired[i] as int;
        match bump(vals, node, 1) {
            Err(e) => Err(e),
            Ok(v1) => match spread(edges, v1, node, outgoing(edges, node), fuel) {
                Err(e) => Err(e),
                Ok(v2) => count_from(edges, v2, desired, i + 1, fuel),
            },
        }
    }
}

/// Whether `rank` goes down along every edge: a graph with such a rank
/// has no cycle.
pub open spec fn ranked(edges: Seq<Edge>, rank: spec_fn(int) -> nat) -> bool {
    forall|k: int|
        0 <= k < edges.len() ==> rank((#[trigger] edges[k]).source) > rank(edges[k].target)
}

/// The members of `outgoing(edges, a)` are targets of edges that leave
/// `a`: their rank is below that of `a`.
proof fn lemma_outgoing_rank(edges: Seq<Edge>, a: int, rank: spec_fn(int) -> nat, i: int)
    requires
        ranked(edges, rank),
        0 <= i < outgoing(edges, a).len(),
    ensures
        rank(outgoing(edges, a)[i].0) < rank(a),
{
    lemma_outgoing_sound(edges, a, i);
}

/// Whether every target among `out` has a rank below `bound`.
pub open spec fn ranks_below(out: Seq<(int, Relation)>, rank: spec_fn(int) -> nat, bound: nat)
    -> bool {
    forall|i: int| 0 <= i < out.len() ==> rank((#[trigger] out[i]).0) < bound
}

/// On a graph without a cycle, weights are handed down without the chain
/// of edges ever being too long for the fuel.
pub proof fn lemma_spread_acyclic(
    edges: Seq<Edge>,
    vals: Seq<int>,
    parent: int,
    out: Seq<(int, Relation)>,
    fuel: nat,
    rank: spec_fn(int) -> nat,
)
    requires
        ranked(edges, rank),
        ranks_below(out, rank, fuel),
    ensures
        spread(edges, vals, parent, out, fuel) != Err::<Seq<int>, ScheduleError>(
            ScheduleError::CyclicRequirements,
        ),
    decreases fuel, out.len(),
{
    if out.len() > 0 {
        assert(rank(out[0].0) < fuel);
        let target = out[0].0;
        if let Ok(v1) = bump(vals, target, vals[parent]) {
            let below = outgoing(edges, target);
            assert forall|i: int| 0 <= i < below.len() implies rank((#[trigger] below[i]).0) < (fuel
                - 1) as nat by {
                lemma_outgoing_rank(edges, target, rank, i);
            }
            lemma_spread_acyclic(edges, v1, target, below, (fuel - 1) as nat, rank);
            if let Ok(v2) = spread(edges, v1, target, below, (fuel - 1) as nat) {
                let rest = out.drop_first();
                assert forall|i: int| 0 <= i < rest.len() implies rank((#[trigger] rest[i]).0)
                    < fuel by {
                    assert(rest[i] == out[i + 1]);
                }
                lemma_spread_acyclic(edges, v2, parent, rest, fuel, rank);
            }
        }
    }
}

/// On a graph without a cycle, where every rank is below the fuel, the
/// wanted courses are counted without a chain of edges ever being too
/// long.
pub proof fn lemma_count_acyclic(
    edges: Seq<Edge>,
    vals: Seq<int>,
    desired: Seq<usize>,
    i: int,
    fuel: nat,
    rank: spec_fn(int) -> nat,
)
    requires
        ranked(edges, rank),
        forall|node: int| #[trigger] rank(node) <= fuel,
    ensures
        count_from(edges, vals, desired, i, fuel) != Err::<Seq<int>, ScheduleError>(
            ScheduleError::CyclicRequirements,
        ),
    decreases desired.len() - i,
{
    if 0 <= i < desired.len() {
        let node = desired[i] as int;
        if let Ok(v1) = bump(vals, node, 1) {
            let out = outgoing(edges, node);
            assert forall|k: int| 0 <= k < out.len() implies rank((#[trigger] out[k]).0) < fuel by {
                lemma_outgoing_rank(edges, node, rank, k);
            }
            lemma_spread_acyclic(edges, v1, node, out, fuel, rank);
            if let Ok(v2) = spread(edges, v1, node, out, fuel) {
                lemma_count_acyclic(edges, v2, desired, i + 1, fuel, rank);
            }
        }
    }
}

/// The weights in a list, as numbers.
pub open spec fn as_ints(vals: Seq<u16>) -> Seq<int> {
    vals.map_values(|v: u16| v as int)
}

/// Adds `by` to the weight of `node`, unless the sum is too great.
fn bump_weight(vals: &mut Vec<u16>, node: usize, by: u16) -> (ok: bool)
    requires
        node < old(vals).len(),
    ensures
        final(vals).len() == old(vals).len(),
        match bump(as_ints(old(vals)@), node as int, by as int) {
            Ok(v) => ok && as_ints(final(vals)@) == v,
            Err(_) => !ok,
        },
{
    let cur = vals[node];
    if cur > 0xffff - by {
        return false;
    }
    vals.set(node, cur + by);
    assert(as_ints(vals@) =~= as_ints(old(vals)@).update(node as int, cur + by));
    true
}

/// Hands the weight of `parent` down its edges.
fn spread_weights(
    g: &Graph<Node, Relation, Directed, u32>,
    vals: &mut Vec<u16>,
    parent: usize,
    fuel: usize,
) -> (r: Result<(), ScheduleError>)
    requires
        parent < graph_nodes(*g).len(),
        old(vals).len() == graph_nodes(*g).len(),
    ensures
        final(vals).len() == old(vals).len(),
        match spread(
            graph_edges(*g),
            as_ints(old(vals)@),
            parent as int,
            outgoing(graph_edges(*g), parent as int),
            fuel as nat,
        ) {
            Ok(v) => r is Ok && as_ints(final(vals)@) == v,
            Err(e) => r == Err::<(), ScheduleError>(e),
        },
    decreases fuel,
{
    let out = graph_out_edges(g, parent);
    let ghost edges = graph_edges(*g);
    let ghost all = outgoing(edges, parent as int);
    let ghost start = as_ints(vals@);
    let mut i: usize = 0;
    assert(all.skip(0) =~= all);
    while i < out.len()
        invariant
            i <= out.len(),
            edges == graph_edges(*g),
            all == outgoing(edges, parent as int),
            start == as_ints(old(vals)@),
            out@.len() == all.len(),
            forall|k: int|
                0 <= k < out@.len() ==> {
                    &&& (#[trigger] out@[k]).0 as int == all[k].0
                    &&& out@[k].0 < graph_nodes(*g).len()
                },
            parent < graph_nodes(*g).len(),
            vals.len() == graph_nodes(*g).len(),
            vals.len() == old(vals).len(),
            spread(edges, start, parent as int, all, fuel as nat) == spread(
                edges,
                as_ints(vals@),
                parent as int,
                all.skip(i as int),
                fuel as nat,
            ),
        decreases out.len() - i,
    {
        let ghost rest = all.skip(i as int);
        assert(rest[0] == all[i as int]);
        assert(rest.drop_first() =~= all.skip(i + 1));
        if fuel == 0 {
            return Err(ScheduleError::CyclicRequirements);
        }
        let target = out[i].0;
        let by = vals[parent];
        if !bump_weight(vals, target, by) {
            return Err(ScheduleError::WeightOverflow);
        }
        match spread_weights(g, vals, target, fuel - 1) {
            Err(e) => {
                return Err(e);
            },
            Ok(()) => {},
        }
        i += 1;
    }
    Ok(())
}

impl CourseGraph {
    /// Counts how the wanted courses lean on each node. Each wanted course
    /// gains one; then its weight goes down every edge that leaves it, to be
    /// added to the target's weight, and from there on in the same way, a
    /// target handing down its new weight before its parent takes its next
    /// edge. A node that several chains reach gains from each. The weights
    /// add to those that the graph holds already. Where a chain is longer
    /// than the graph has nodes, or a weight would pass `u16::MAX`, the
    /// graph stays as it is.
    pub fn count_dependents(&mut self, desired: &[usize]) -> (r: Result<(), ScheduleError>)
        requires
            forall|i: int| 0 <= i < desired@.len() ==> desired@[i] < old(self).nodes().len(),
        ensures
            match count_from(
                old(self).edges(),
                weights(old(self).nodes()),
                desired@,
                0,
                old(self).nodes().len(),
            ) {
                Ok(v) => r is Ok && final(self).nodes() == with_weights(old(self).nodes(), v),
                Err(e) => r == Err::<(), ScheduleError>(e) && final(self).nodes() == old(
                    self,
                ).nodes(),
            },
            final(self).edges() == old(self).edges(),
    {
        let n = graph_node_count(&self.courses);
        let ghost nodes = self.nodes();
        let ghost edges = self.edges();
        let mut vals: Vec<u16> = Vec::new();
        let mut k: usize = 0;
        while k < n
            invariant
                k <= n,
                n == graph_nodes(self.courses).len(),
                nodes == node_views(graph_nodes(self.courses)),
                vals.len() == k,
                forall|j: int| 0 <= j < k ==> (#[trigger] vals@[j]) as int == nodes[j].val,
            decreases n - k,
        {
            vals.push(graph_node(&self.courses, k).val);
            k += 1;
        }
        assert(as_ints(vals@) =~= weights(nodes));
        let mut i: usize = 0;
        while i < desired.len()
            invariant
                i <= desired.len(),
                *self == *old(self),
                nodes == self.nodes(),
                edges == self.edges(),
                n == nodes.len(),
                vals.len() == n,
                forall|j: int| 0 <= j < desired@.len() ==> desired@[j] < n,
                count_from(edges, weights(nodes), desired@, 0, n as nat) == count_from(
                    edges,
                    as_ints(vals@),
                    desired@,
                    i as int,
                    n as nat,
                ),
            decreases desired.len() - i,
        {
            let node = desired[i];
            if !bump_weight(&mut vals, node, 1) {
                return Err(ScheduleError::WeightOverflow);
            }
            match spread_weights(&self.courses, &mut vals, node, n) {
                Err(e) => {
                    return Err(e);
                },
                Ok(()) => {},
            }
            i += 1;
        }
        let ghost result = as_ints(vals@);
        let mut k: usize = 0;
        while k < n
            invariant
                k <= n,
                n == graph_nodes(self.courses).len(),
                n == nodes.len(),
                vals.len() == n,
                result == as_ints(vals@),
                nodes == old(self).nodes(),
                graph_edges(self.courses) == edges,
                forall|j: int|
                    0 <= j < k ==> (#[trigger] self.nodes()[j]) == (NodeView {
                        ntype: nodes[j].ntype,
                        val: result[j],
                    }),
                forall|j: int| k <= j < n ==> (#[trigger] self.nodes()[j]) == nodes[j],
            decreases n - k,
        {
            let ghost prev = graph_nodes(self.courses);
            assert(self.nodes()[k as int] == nodes[k as int]);
            let ghost before = self.nodes();
            assert(result[k as int] == vals@[k as int] as int);
            graph_set_val(&mut self.courses, k, vals[k]);
            assert(graph_nodes(self.courses)[k as int]@ == (NodeView {
                ntype: nodes[k as int].ntype,
                val: result[k as int],
            }));
            assert(self.nodes() =~= before.update(
                k as int,
                NodeView { ntype: nodes[k as int].ntype, val: result[k as int] },
            ));
            assert forall|j: int| 0 <= j < k + 1 implies (#[trigger] self.nodes()[j]) == (NodeView {
                ntype: nodes[j].ntype,
                val: result[j],
            }) by {
                if j < k {
                    assert(before[j] == (NodeView { ntype: nodes[j].ntype, val: result[j] }));
                }
            }
            assert forall|j: int| k + 1 <= j < n implies (#[trigger] self.nodes()[j]) == nodes[j] by {
                assert(before[j] == nodes[j]);
            }
            k += 1;
        }
        assert(self.nodes() =~= with_weights(nodes, result));
        Ok(())
    }
}

/// The terms under construction: the sets so far, earliest required
/// last, and the position of the set that takes the next course.
pub struct Terms {
    pub sets: Seq<Seq<usize>>,
    pub depth: int,
}

/// The views of a list of sets.
pub open spec fn set_views(sets: Seq<CourseSet>) -> Seq<Seq<usize>> {
    sets.map_values(|s: CourseSet| s@)
}

/// `t` with a set at the current depth: a new, empty one where the sets
/// end just before it.
pub open spec fn open_term(t: Terms) -> Terms {
    if t.sets.len() == t.depth {
        Terms { sets: t.sets.push(Seq::empty()), depth: t.depth }
    } else {
        t
    }
}

/// Puts `node` into the set at the current depth. Where that set holds
/// `capacity` courses or more, a new set is added at the end first and the
/// depth goes up by one.
pub open spec fn place(t: Terms, capacity: int, node: usize) -> Result<Terms, ScheduleError> {
    let t1 = if t.sets[t.depth].len() >= capacity {
        Terms { sets: t.sets.push(Seq::empty()), depth: t.depth + 1 }
    } else {
        t
    };
    if t1.sets[t1.depth].len() >= SET_LIMIT {
        Err(ScheduleError::SetFull)
    } else {
        Ok(Terms { sets: t1.sets.update(t1.depth, t1.sets[t1.depth].push(node)), depth: t1.depth })
    }
}

/// The alternative to take among `out` from position `i` on: the first
/// whose weight is greater than `best_val`, and greater than or equal to
/// those that follow; `best` where there is none.
pub open spec fn or_choice(
    nodes: Seq<NodeView>,
    out: Seq<(int, Relation)>,
    i: int,
    best: Option<int>,
    best_val: int,
) -> Option<int>
    decreases out.len() - i,
{
    if i < 0 || i >= out.len() {
        best
    } else if nodes[out[i].0].val > best_val {
        or_choice(nodes, out, i + 1, Some(out[i].0), nodes[out[i].0].val)
    } else {
        or_choice(nodes, out, i + 1, best, best_val)
    }
}

/// The weight of the target of the edge `j` of `out`.
pub open spec fn weight_at(nodes: Seq<NodeView>, out: Seq<(int, Relation)>, j: int) -> int {
    nodes[out[j].0].val
}

/// Whether a weight among `out` from position `i` on is above `floor`.
pub open spec fn some_above(nodes: Seq<NodeView>, out: Seq<(int, Relation)>, i: int, floor: int)
    -> bool {
    exists|k: int| i <= k < out.len() && #[trigger] weight_at(nodes, out, k) > floor
}

/// Whether the edge `k` is the first, from position `i` on, whose weight
/// is above `floor` and is passed by no other.
pub open spec fn is_choice(
    nodes: Seq<NodeView>,
    out: Seq<(int, Relation)>,
    i: int,
    floor: int,
    k: int,
) -> bool {
    &&& i <= k < out.len()
    &&& weight_at(nodes, out, k) > floor
    &&& forall|j: int|
        i <= j < out.len() ==> #[trigger] weight_at(nodes, out, j) <= weight_at(nodes, out, k)
    &&& forall|j: int| i <= j < k ==> #[trigger] weight_at(nodes, out, j) < weight_at(nodes, out, k)
}

/// Which alternative `or_choice` takes: where no weight is above
/// `best_val`, `best`; else the first of the alternatives whose weight
/// no other passes.
pub proof fn lemma_or_choice(
    nodes: Seq<NodeView>,
    out: Seq<(int, Relation)>,
    i: int,
    best: Option<int>,
    best_val: int,
)
    requires
        0 <= i <= out.len(),
    ensures
        !some_above(nodes, out, i, best_val) ==> or_choice(nodes, out, i, best, best_val) == best,
        some_above(nodes, out, i, best_val) ==> exists|k: int|
            #[trigger] is_choice(nodes, out, i, best_val, k) && or_choice(
                nodes,
                out,
                i,
                best,
                best_val,
            ) == Some(out[k].0),
    decreases out.len() - i,
{
    if i < out.len() {
        let here = weight_at(nodes, out, i);
        if here > best_val {
            lemma_or_choice(nodes, out, i + 1, Some(out[i].0), here);
            if some_above(nodes, out, i + 1, here) {
                let k = choose|k: int|
                    #[trigger] is_choice(nodes, out, i + 1, here, k) && or_choice(
                        nodes,
                        out,
                        i + 1,
                        Some(out[i].0),
                        here,
                    ) == Some(out[k].0);
                assert(is_choice(nodes, out, i, best_val, k));
            } else {
                assert forall|j: int| i <= j < out.len() implies #[trigger] weight_at(
                    nodes,
                    out,
                    j,
                ) <= here by {
                    if j > i && weight_at(nodes, out, j) > here {
                        assert(some_above(nodes, out, i + 1, here));
                    }
                }
                assert(is_choice(nodes, out, i, best_val, i));
            }
        } else {
            lemma_or_choice(nodes, out, i + 1, best, best_val);
            if some_above(nodes, out, i, best_val) {
                let k0 = choose|k: int|
                    i <= k < out.len() && #[trigger] weight_at(nodes, out, k) > best_val;
                assert(some_above(nodes, out, i + 1, best_val));
                let k = choose|k: int|
                    #[trigger] is_choice(nodes, out, i + 1, best_val, k) && or_choice(
                        nodes,
                        out,
                        i + 1,
                        best,
                        best_val,
                    ) == Some(out[k].0);
                assert(is_choice(nodes, out, i, best_val, k));
            } else {
                if some_above(nodes, out, i + 1, best_val) {
                    let k0 = choose|k: int|
                        i + 1 <= k < out.len() && #[trigger] weight_at(nodes, out, k) > best_val;
                    assert(some_above(nodes, out, i, best_val));
                }
            }
        }
    }
}

/// Adds `node` and what it requires to the terms. A course goes into the
/// set at the current depth, and then each of its edges is followed. A
/// marker of alternatives adds nothing itself: the alternative with the
/// greatest weight is visited in its place, if any has a weight above
/// zero. `fuel` bounds the length of a chain of edges.
pub open spec fn visit(
    edges: Seq<Edge>,
    nodes: Seq<NodeView>,
    t: Terms,
    capacity: int,
    node: int,
    fuel: nat,
) -> Result<Terms, ScheduleError>
    decreases fuel, 1int, 0int,
{
    if fuel == 0 {
        Err(ScheduleError::CyclicRequirements)
    } else {
        let t0 = open_term(t);
        match nodes[node].ntype {
            NodeTypeView::Course(_) => match place(t0, capacity, node as usize) {
                Err(e) => Err(e),
                Ok(t1) => visit_edges(edges, nodes, t1, capacity, outgoing(edges, node), fuel),
            },
            NodeTypeView::Or => match or_choice(nodes, outgoing(edges, node), 0, None, 0) {
                None => Ok(t0),
                Some(choice) => visit(edges, nodes, t0, capacity, choice, (fuel - 1) as nat),
            },
        }
    }
}

/// Follows the edges `out` of a course: a prerequisite is visited one set
/// deeper, and the depth comes back up by one afterwards; a corequisite is
/// visited at the same depth.
pub open spec fn visit_edges(
    edges: Seq<Edge>,
    nodes: Seq<NodeView>,
    t: Terms,
    capacity: int,
    out: Seq<(int, Relation)>,
    fuel: nat,
) -> Result<Terms, ScheduleError>
    decreases fuel, 0int, out.len(),
{
    if out.len() == 0 || fuel == 0 {
        Ok(t)
    } else {
        match out[0].1 {
            Relation::Prereq => match visit(
                edges,
                nodes,
                Terms { sets: t.sets, depth: t.depth + 1 },
                capacity,
                out[0].0,
                (fuel - 1) as nat,
            ) {
                Err(e) => Err(e),
                Ok(t1) => visit_edges(
                    edges,
                    nodes,
                    Terms { sets: t1.sets, depth: t1.depth - 1 },
                    capacity,
                    out.drop_first(),
                    fuel,
                ),
            },
            Relation::Coreq => match visit(
                edges,
                nodes,
                t,
                capacity,
                out[0].0,
                (fuel - 1) as nat,
            ) {
                Err(e) => Err(e),
                Ok(t1) => visit_edges(edges, nodes, t1, capacity, out.drop_first(), fuel),
            },
        }
    }
}

/// Visits the wanted courses from position `i` on, each from depth zero.
pub open spec fn build_from(
    edges: Seq<Edge>,
    nodes: Seq<NodeView>,
    sets: Seq<Seq<usize>>,
    capacity: int,
    desired: Seq<usize>,
    i: int,
) -> Result<Seq<Seq<usize>>, ScheduleError>
    decreases desired.len() - i,
{
    if i < 0 || i >= desired.len() {
        Ok(sets)
    } else {
        match visit(
            edges,
            nodes,
            Terms { sets, depth: 0 },
            capacity,
            desired[i] as int,
            nodes.len(),
        ) {
            Err(e) => Err(e),
            Ok(t) => build_from(edges, nodes, t.sets, capacity, desired, i + 1),
        }
    }
}

/// On a graph without a cycle, a node whose rank is below the fuel is
/// visited without a chain of edges ever being too long.
pub proof fn lemma_visit_acyclic(
    edges: Seq<Edge>,
    nodes: Seq<NodeView>,
    t: Terms,
    capacity: int,
    node: int,
    fuel: nat,
    rank: spec_fn(int) -> nat,
)
    requires
        ranked(edges, rank),
        rank(node) < fuel,
    ensures
        visit(edges, nodes, t, capacity, node, fuel) != Err::<Terms, ScheduleError>(
            ScheduleError::CyclicRequirements,
        ),
    decreases fuel, 1int, 0int,
{
    let t0 = open_term(t);
    let out = outgoing(edges, node);
    assert forall|i: int| 0 <= i < out.len() implies rank((#[trigger] out[i]).0) < (fuel
        - 1) as nat by {
        lemma_outgoing_rank(edges, node, rank, i);
    }
    match nodes[node].ntype {
        NodeTypeView::Course(_) => {
            if let Ok(t1) = place(t0, capacity, node as usize) {
                lemma_visit_edges_acyclic(edges, nodes, t1, capacity, out, fuel, rank);
            }
        },
        NodeTypeView::Or => {
            lemma_or_choice(nodes, out, 0, None, 0);
            if let Some(choice) = or_choice(nodes, out, 0, None, 0) {
                let k = choose|k: int|
                    #[trigger] is_choice(nodes, out, 0, 0, k) && or_choice(nodes, out, 0, None, 0)
                        == Some(out[k].0);
                assert(rank(out[k].0) < (fuel - 1) as nat);
                lemma_visit_acyclic(edges, nodes, t0, capacity, choice, (fuel - 1) as nat, rank);
            }
        },
    }
}

/// `lemma_visit_acyclic`, for the edges of a course.
pub proof fn lemma_visit_edges_acyclic(
    edges: Seq<Edge>,
    nodes: Seq<NodeView>,
    t: Terms,
    capacity: int,
    out: Seq<(int, Relation)>,
    fuel: nat,
    rank: spec_fn(int) -> nat,
)
    requires
        ranked(edges, rank),
        fuel > 0,
        ranks_below(out, rank, (fuel - 1) as nat),
    ensures
        visit_edges(edges, nodes, t, capacity, out, fuel) != Err::<Terms, ScheduleError>(
            ScheduleError::CyclicRequirements,
        ),
    decreases fuel, 0int, out.len(),
{
    if out.len() > 0 {
        let rest = out.drop_first();
        assert(rank(out[0].0) < (fuel - 1) as nat);
        assert forall|i: int| 0 <= i < rest.len() implies rank((#[trigger] rest[i]).0) < (fuel
            - 1) as nat by {
            assert(rest[i] == out[i + 1]);
        }
        match out[0].1 {
            Relation::Prereq => {
                let deeper = Terms { sets: t.sets, depth: t.depth + 1 };
                let less = (fuel - 1) as nat;
                lemma_visit_acyclic(edges, nodes, deeper, capacity, out[0].0, less, rank);
                if let Ok(t1) = visit(edges, nodes, deeper, capacity, out[0].0, (fuel - 1) as nat) {
                    lemma_visit_edges_acyclic(
                        edges,
                        nodes,
                        Terms { sets: t1.sets, depth: t1.depth - 1 },
                        capacity,
                        rest,
                        fuel,
                        rank,
                    );
                }
            },
            Relation::Coreq => {
                lemma_visit_acyclic(edges, nodes, t, capacity, out[0].0, (fuel - 1) as nat, rank);
                if let Ok(t1) = visit(edges, nodes, t, capacity, out[0].0, (fuel - 1) as nat) {
                    lemma_visit_edges_acyclic(edges, nodes, t1, capacity, rest, fuel, rank);
                }
            },
        }
    }
}

/// On a graph without a cycle, where every rank is below the number of
/// nodes, the sets are built without a chain of edges ever being too
/// long.
pub proof fn lemma_build_acyclic(
    edges: Seq<Edge>,
    nodes: Seq<NodeView>,
    sets: Seq<Seq<usize>>,
    capacity: int,
    desired: Seq<usize>,
    i: int,
    rank: spec_fn(int) -> nat,
)
    requires
        ranked(edges, rank),
        forall|node: int| #[trigger] rank(node) < nodes.len(),
    ensures
        build_from(edges, nodes, sets, capacity, desired, i) != Err::<
            Seq<Seq<usize>>,
            ScheduleError,
        >(ScheduleError::CyclicRequirements),
    decreases desired.len() - i,
{
    if 0 <= i < desired.len() {
        let start = Terms { sets, depth: 0 };
        assert(rank(desired[i] as int) < nodes.len());
        lemma_visit_acyclic(edges, nodes, start, capacity, desired[i] as int, nodes.len(), rank);
        if let Ok(t) = visit(edges, nodes, start, capacity, desired[i] as int, nodes.len()) {
            lemma_build_acyclic(edges, nodes, t.sets, capacity, desired, i + 1, rank);
        }
    }
}

/// What a list of sets and a depth stand for together.
pub open spec fn terms_of(sets: Seq<CourseSet>, depth: usize) -> Terms {
    Terms { sets: set_views(sets), depth: depth as int }
}

/// The alternative to take at the marker `node`.
fn choose_alternative(g: &Graph<Node, Relation, Directed, u32>, out: &Vec<(usize, Relation)>) -> (r:
    Option<usize>)
    requires
        forall|k: int| 0 <= k < out@.len() ==> (#[trigger] out@[k]).0 < graph_nodes(*g).len(),
    ensures
        r matches Some(c) ==> or_choice(
            node_views(graph_nodes(*g)),
            pairs(out@),
            0,
            None,
            0,
        ) == Some(c as int) && c < graph_nodes(*g).len(),
        r is None ==> or_choice(node_views(graph_nodes(*g)), pairs(out@), 0, None, 0) is None,
{
    let ghost nodes = node_views(graph_nodes(*g));
    let ghost all = pairs(out@);
    let mut max_val: u16 = 0;
    let mut max_idx: Option<usize> = None;
    let mut i: usize = 0;
    while i < out.len()
        invariant
            i <= out.len(),
            nodes == node_views(graph_nodes(*g)),
            all == pairs(out@),
            forall|k: int| 0 <= k < out@.len() ==> (#[trigger] out@[k]).0 < graph_nodes(*g).len(),
            max_idx matches Some(c) ==> c < graph_nodes(*g).len(),
            or_choice(nodes, all, 0, None, 0) == or_choice(
                nodes,
                all,
                i as int,
                match max_idx {
                    Some(c) => Some(c as int),
                    None => None,
                },
                max_val as int,
            ),
        decreases out.len() - i,
    {
        let choice = out[i].0;
        assert(all[i as int].0 == choice as int);
        let val = graph_node(g, choice).val;
        if val > max_val {
            max_val = val;
            max_idx = Some(choice);
        }
        i += 1;
    }
    max_idx
}

/// The targets and relations of a list of edges, the targets as numbers.
pub open spec fn pairs(out: Seq<(usize, Relation)>) -> Seq<(int, Relation)> {
    out.map_values(|p: (usize, Relation)| (p.0 as int, p.1))
}

/// The edges that leave `a`, with what `outgoing` says of them.
fn out_edges(g: &Graph<Node, Relation, Directed, u32>, a: usize) -> (out: Vec<(usize, Relation)>)
    requires
        a < graph_nodes(*g).len(),
    ensures
        pairs(out@) == outgoing(graph_edges(*g), a as int),
        forall|k: int| 0 <= k < out@.len() ==> (#[trigger] out@[k]).0 < graph_nodes(*g).len(),
{
    let out = graph_out_edges(g, a);
    assert(pairs(out@) =~= outgoing(graph_edges(*g), a as int));
    out
}

/// Puts `node` into the set at the current depth.
fn place_course(sets: &mut Vec<CourseSet>, depth: &mut usize, capacity: usize, node: usize) -> (ok:
    bool)
    requires
        *old(depth) < old(sets).len(),
    ensures
        match place(terms_of(old(sets)@, *old(depth)), capacity as int, node) {
            Ok(t) => ok && terms_of(final(sets)@, *final(depth)) == t,
            Err(_) => !ok,
        },
        ok ==> *old(depth) <= *final(depth) < final(sets).len(),
{
    if sets[*depth].len() >= capacity {
        sets.push(CourseSet::default());
        *depth += 1;
        assert(set_views(sets@) =~= set_views(old(sets)@).push(Seq::empty()));
    }
    let ghost mid = set_views(sets@);
    let mut set = sets[*depth];
    assert(set@ == mid[*depth as int]);
    if !set.push(node) {
        return false;
    }
    sets.set(*depth, set);
    assert(set_views(sets@) =~= mid.update(*depth as int, mid[*depth as int].push(node)));
    true
}

/// Adds `node` and what it requires to the terms.
fn add_courses(
    g: &Graph<Node, Relation, Directed, u32>,
    sets: &mut Vec<CourseSet>,
    capacity: usize,
    depth: &mut usize,
    node: usize,
    fuel: usize,
) -> (r: Result<(), ScheduleError>)
    requires
        node < graph_nodes(*g).len(),
        *old(depth) <= old(sets).len(),
    ensures
        match visit(
            graph_edges(*g),
            node_views(graph_nodes(*g)),
            terms_of(old(sets)@, *old(depth)),
            capacity as int,
            node as int,
            fuel as nat,
        ) {
            Ok(t) => r is Ok && terms_of(final(sets)@, *final(depth)) == t,
            Err(e) => r == Err::<(), ScheduleError>(e),
        },
        r is Ok ==> *old(depth) <= *final(depth) < final(sets).len(),
    decreases fuel, 1int, 0int,
{
    if fuel == 0 {
        return Err(ScheduleError::CyclicRequirements);
    }
    if sets.len() == *depth {
        sets.push(CourseSet::default());
        assert(set_views(sets@) =~= set_views(old(sets)@).push(Seq::empty()));
    }
    assert(node_views(graph_nodes(*g))[node as int] == graph_nodes(*g)[node as int]@);
    match &graph_node(g, node).ntype {
        NodeType::Course(_) => {
            if !place_course(sets, depth, capacity, node) {
                return Err(ScheduleError::SetFull);
            }
            let out = out_edges(g, node);
            follow_edges(g, sets, capacity, depth, &out, fuel)
        },
        NodeType::Or => {
            let out = out_edges(g, node);
            match choose_alternative(g, &out) {
                Some(choice) => add_courses(g, sets, capacity, depth, choice, fuel - 1),
                None => Ok(()),
            }
        },
    }
}

/// Follows the edges `out` of a course.
fn follow_edges(
    g: &Graph<Node, Relation, Directed, u32>,
    sets: &mut Vec<CourseSet>,
    capacity: usize,
    depth: &mut usize,
    out: &Vec<(usize, Relation)>,
    fuel: usize,
) -> (r: Result<(), ScheduleError>)
    requires
        fuel > 0,
        *old(depth) < old(sets).len(),
        forall|k: int| 0 <= k < out@.len() ==> (#[trigger] out@[k]).0 < graph_nodes(*g).len(),
    ensures
        match visit_edges(
            graph_edges(*g),
            node_views(graph_nodes(*g)),
            terms_of(old(sets)@, *old(depth)),
            capacity as int,
            pairs(out@),
            fuel as nat,
        ) {
            Ok(t) => r is Ok && terms_of(final(sets)@, *final(depth)) == t,
            Err(e) => r == Err::<(), ScheduleError>(e),
        },
        r is Ok ==> *old(depth) <= *final(depth) < final(sets).len(),
    decreases fuel, 0int, out.len(),
{
    let ghost edges = graph_edges(*g);
    let ghost nodes = node_views(graph_nodes(*g));
    let ghost all = pairs(out@);
    let ghost start = terms_of(sets@, *depth);
    let mut i: usize = 0;
    assert(all.skip(0) =~= all);
    while i < out.len()
        invariant
            i <= out.len(),
            fuel > 0,
            edges == graph_edges(*g),
            nodes == node_views(graph_nodes(*g)),
            all == pairs(out@),
            start == terms_of(old(sets)@, *old(depth)),
            forall|k: int| 0 <= k < out@.len() ==> (#[trigger] out@[k]).0 < graph_nodes(*g).len(),
            *old(depth) <= *depth < sets.len(),
            visit_edges(edges, nodes, start, capacity as int, all, fuel as nat) == visit_edges(
                edges,
                nodes,
                terms_of(sets@, *depth),
                capacity as int,
                all.skip(i as int),
                fuel as nat,
            ),
        decreases out.len() - i,
    {
        let ghost rest = all.skip(i as int);
        assert(rest[0] == all[i as int]);
        assert(rest.drop_first() =~= all.skip(i + 1));
        let target = out[i].0;
        match out[i].1 {
            Relation::Prereq => {
                *depth += 1;
                match add_courses(g, sets, capacity, depth, target, fuel - 1) {
                    Err(e) => {
                        return Err(e);
                    },
                    Ok(()) => {},
                }
                *depth -= 1;
            },
            Relation::Coreq => {
                match add_courses(g, sets, capacity, depth, target, fuel - 1) {
                    Err(e) => {
                        return Err(e);
                    },
                    Ok(()) => {},
                }
            },
        }
        i += 1;
    }
    Ok(())
}

impl CourseGraph {
    /// Lays the wanted courses and what they require out in sets. Each
    /// wanted course is visited from depth zero: a course goes into the set
    /// at the current depth; what it requires as a prerequisite goes one set
    /// deeper, what it requires as a corequisite into the same set; of a
    /// group of alternatives only the one with the greatest weight is
    /// followed, and none where no weight is above zero. A set that holds
    /// `set_capacity` courses sends the next course on to a new set. The
    /// sets come in the order in which they were opened, the wanted courses
    /// first: read them from the back for the order in which to take them.
    pub fn build_sets(&self, desired: &[usize], set_capacity: usize) -> (r: Result<
        Vec<CourseSet>,
        ScheduleError,
    >)
        requires
            forall|i: int| 0 <= i < desired@.len() ==> desired@[i] < self.nodes().len(),
        ensures
            match build_from(
                self.edges(),
                self.nodes(),
                Seq::empty(),
                set_capacity as int,
                desired@,
                0,
            ) {
                Ok(sets) => r matches Ok(v) && set_views(v@) == sets,
                Err(e) => r matches Err(err) && err == e,
            },
    {
        let n = graph_node_count(&self.courses);
        let mut sets: Vec<CourseSet> = Vec::new();
        let mut i: usize = 0;
        assert(set_views(sets@) =~= Seq::<Seq<usize>>::empty());
        while i < desired.len()
            invariant
                i <= desired.len(),
                n == self.nodes().len(),
                forall|j: int| 0 <= j < desired@.len() ==> desired@[j] < self.nodes().len(),
                build_from(
                    self.edges(),
                    self.nodes(),
                    Seq::empty(),
                    set_capacity as int,
                    desired@,
                    0,
                ) == build_from(
                    self.edges(),
                    self.nodes(),
                    set_views(sets@),
                    set_capacity as int,
                    desired@,
                    i as int,
                ),
            decreases desired.len() - i,
        {
            let mut depth: usize = 0;
            match add_courses(&self.courses, &mut sets, set_capacity, &mut depth, desired[i], n) {
                Err(e) => {
                    return Err(e);
                },
                Ok(()) => {},
            }
            i += 1;
        }
        Ok(sets)
    }
}

/// Whether a chain of at least one and at most `steps` edges leads from
/// `a` to a member of `targets`.
pub open spec fn reaches_any(edges: Seq<Edge>, a: int, targets: Seq<usize>, steps: nat) -> bool
    decreases steps,
{
    steps > 0 && exists|k: int|
        0 <= k < edges.len() && (#[trigger] edges[k]).source == a && (targets.contains(
            edges[k].target as usize,
        ) || reaches_any(edges, edges[k].target, targets, (steps - 1) as nat))
}

/// Whether a chain of at least one and at most `steps` edges leads from
/// `a` to `b`.
pub open spec fn reaches(edges: Seq<Edge>, a: int, b: int, steps: nat) -> bool {
    reaches_any(edges, a, seq![b as usize], steps)
}

/// Every edge that leaves `a` is among `outgoing(edges, a)`.
pub proof fn lemma_outgoing_complete(edges: Seq<Edge>, a: int, k: int)
    requires
        0 <= k < edges.len(),
        edges[k].source == a,
    ensures
        exists|i: int|
            0 <= i < outgoing(edges, a).len() && #[trigger] outgoing(edges, a)[i] == (
                edges[k].target,
                edges[k].relation,
            ),
    decreases edges.len(),
{
    let head = edges.drop_last();
    let rest = outgoing(head, a);
    if k == edges.len() - 1 {
        assert(outgoing(edges, a)[0] == (edges[k].target, edges[k].relation));
    } else {
        lemma_outgoing_complete(head, a, k);
        let i = choose|i: int|
            0 <= i < rest.len() && #[trigger] rest[i] == (head[k].target, head[k].relation);
        if edges.last().source == a {
            assert(outgoing(edges, a)[i + 1] == rest[i]);
        } else {
            assert(outgoing(edges, a)[i] == rest[i]);
        }
    }
}

/// Every member of `outgoing(edges, a)` is an edge that leaves `a`.
pub proof fn lemma_outgoing_sound(edges: Seq<Edge>, a: int, i: int)
    requires
        0 <= i < outgoing(edges, a).len(),
    ensures
        exists|k: int|
            0 <= k < edges.len() && (#[trigger] edges[k]).source == a && (
                edges[k].target,
                edges[k].relation,
            ) == outgoing(edges, a)[i],
    decreases edges.len(),
{
    let head = edges.drop_last();
    let rest = outgoing(head, a);
    if edges.last().source == a && i == 0 {
        assert(edges[edges.len() - 1].source == a);
    } else {
        let j = if edges.last().source == a {
            i - 1
        } else {
            i
        };
        assert(outgoing(edges, a)[i] == rest[j]);
        lemma_outgoing_sound(head, a, j);
        let k = choose|k: int|
            0 <= k < head.len() && (#[trigger] head[k]).source == a && (
                head[k].target,
                head[k].relation,
            ) == rest[j];
        assert(edges[k] == head[k]);
    }
}

/// Whether an edge leads from `a` to `b`.
pub open spec fn has_edge(edges: Seq<Edge>, a: int, b: int) -> bool {
    exists|k: int| 0 <= k < edges.len() && (#[trigger] edges[k]).source == a && edges[k].target == b
}

/// Whether `walk` is a chain of edges: two nodes or more, an edge from
/// each to the next.
pub open spec fn is_walk(edges: Seq<Edge>, walk: Seq<int>) -> bool {
    &&& walk.len() >= 2
    &&& forall|i: int| 0 <= i < walk.len() - 1 ==> has_edge(edges, #[trigger] walk[i], walk[i + 1])
}

/// Whether every edge ends at a node below `n`.
pub open spec fn targets_below(edges: Seq<Edge>, n: nat) -> bool {
    forall|k: int| 0 <= k < edges.len() ==> 0 <= (#[trigger] edges[k]).target < n
}

/// A chain of edges to a member of `targets`, of no more than `steps`
/// edges, shows that `reaches_any` holds.
proof fn lemma_walk_reaches(edges: Seq<Edge>, walk: Seq<int>, targets: Seq<usize>, steps: nat)
    requires
        is_walk(edges, walk),
        targets.contains(walk.last() as usize),
        walk.len() - 1 <= steps,
    ensures
        reaches_any(edges, walk[0], targets, steps),
    decreases walk.len(),
{
    assert(has_edge(edges, walk[0], walk[1]));
    let k = choose|k: int|
        0 <= k < edges.len() && (#[trigger] edges[k]).source == walk[0] && edges[k].target
            == walk[1];
    if walk.len() > 2 {
        let rest = walk.drop_first();
        assert forall|i: int| 0 <= i < rest.len() - 1 implies has_edge(
            edges,
            #[trigger] rest[i],
            rest[i + 1],
        ) by {
            assert(rest[i] == walk[i + 1]);
            assert(has_edge(edges, walk[i + 1], walk[i + 2]));
        }
        assert(rest.last() == walk.last());
        lemma_walk_reaches(edges, rest, targets, (steps - 1) as nat);
    }
}

/// Where `reaches_any` holds there is a chain of edges to a member of
/// `targets`, of no more than `steps` edges.
proof fn lemma_reaches_walk(edges: Seq<Edge>, a: int, targets: Seq<usize>, steps: nat) -> (walk:
    Seq<int>)
    requires
        reaches_any(edges, a, targets, steps),
    ensures
        is_walk(edges, walk),
        walk[0] == a,
        targets.contains(walk.last() as usize),
        walk.len() - 1 <= steps,
    decreases steps,
{
    let k = choose|k: int|
        0 <= k < edges.len() && (#[trigger] edges[k]).source == a && (targets.contains(
            edges[k].target as usize,
        ) || reaches_any(edges, edges[k].target, targets, (steps - 1) as nat));
    let next = edges[k].target;
    if targets.contains(next as usize) {
        let walk = seq![a, next];
        assert(has_edge(edges, a, next));
        walk
    } else {
        let rest = lemma_reaches_walk(edges, next, targets, (steps - 1) as nat);
        let walk = seq![a] + rest;
        assert forall|i: int| 0 <= i < walk.len() - 1 implies has_edge(
            edges,
            #[trigger] walk[i],
            walk[i + 1],
        ) by {
            if i == 0 {
                assert(walk[1] == rest[0]);
                assert(has_edge(edges, a, next));
            } else {
                assert(walk[i] == rest[i - 1] && walk[i + 1] == rest[i]);
                assert(has_edge(edges, rest[i - 1], rest[i]));
            }
        }
        assert(walk.last() == rest.last());
        walk
    }
}

/// More numbers than `n`, all below `n`, hold one number twice.
proof fn lemma_pigeonhole(s: Seq<int>, n: nat) -> (pair: (int, int))
    requires
        s.len() > n,
        forall|i: int| 0 <= i < s.len() ==> 0 <= #[trigger] s[i] < n,
    ensures
        0 <= pair.0 < pair.1 < s.len(),
        s[pair.0] == s[pair.1],
{
    if s.no_duplicates() {
        s.unique_seq_to_set();
        vstd::set_lib::lemma_int_range(0, n as int);
        assert(s.to_set().subset_of(vstd::set_lib::set_int_range(0, n as int))) by {
            assert forall|x: int| s.to_set().contains(x) implies vstd::set_lib::set_int_range(
                0,
                n as int,
            ).contains(x) by {
                let i = choose|i: int| 0 <= i < s.len() && s[i] == x;
            }
        }
        vstd::set_lib::lemma_len_subset(s.to_set(), vstd::set_lib::set_int_range(0, n as int));
    }
    let (i, j) = choose|i: int, j: int| 0 <= i < s.len() && 0 <= j < s.len() && i != j && s[i] == s[j];
    if i < j {
        (i, j)
    } else {
        (j, i)
    }
}

/// A chain of more edges than the graph has nodes can be made shorter:
/// it passes one node twice, and what lies between can go.
proof fn lemma_shorter_walk(edges: Seq<Edge>, walk: Seq<int>, n: nat) -> (shorter: Seq<int>)
    requires
        is_walk(edges, walk),
        targets_below(edges, n),
        walk.len() - 1 > n,
    ensures
        is_walk(edges, shorter),
        shorter[0] == walk[0],
        shorter.last() == walk.last(),
        shorter.len() < walk.len(),
{
    let tail = walk.drop_first();
    assert forall|i: int| 0 <= i < tail.len() implies 0 <= #[trigger] tail[i] < n by {
        assert(has_edge(edges, walk[i], walk[i + 1]));
        assert(tail[i] == walk[i + 1]);
    }
    let (i0, j0) = lemma_pigeonhole(tail, n);
    let i = i0 + 1;
    let j = j0 + 1;
    assert(walk[i] == tail[i0] && walk[j] == tail[j0]);
    let shorter = walk.take(i + 1) + walk.skip(j + 1);
    assert forall|k: int| 0 <= k < shorter.len() - 1 implies has_edge(
        edges,
        #[trigger] shorter[k],
        shorter[k + 1],
    ) by {
        if k < i {
            assert(shorter[k] == walk[k] && shorter[k + 1] == walk[k + 1]);
            assert(has_edge(edges, walk[k], walk[k + 1]));
        } else if k == i {
            assert(shorter[k] == walk[j] && shorter[k + 1] == walk[j + 1]);
            assert(has_edge(edges, walk[j], walk[j + 1]));
        } else {
            let at = k - i + j;
            assert(shorter[k] == walk[at] && shorter[k + 1] == walk[at + 1]);
            assert(has_edge(edges, walk[at], walk[at + 1]));
        }
    }
    if j == walk.len() - 1 {
        assert(shorter.last() == walk[i]);
    } else {
        assert(shorter.last() == walk[walk.len() - 1]);
    }
    shorter
}

/// A chain of edges to a member of `targets` gives one of no more edges
/// than the graph has nodes.
proof fn lemma_short_walk(edges: Seq<Edge>, walk: Seq<int>, targets: Seq<usize>, n: nat)
    requires
        is_walk(edges, walk),
        targets_below(edges, n),
        targets.contains(walk.last() as usize),
    ensures
        reaches_any(edges, walk[0], targets, n),
    decreases walk.len(),
{
    if walk.len() - 1 <= n {
        lemma_walk_reaches(edges, walk, targets, n);
    } else {
        let shorter = lemma_shorter_walk(edges, walk, n);
        lemma_short_walk(edges, shorter, targets, n);
    }
}

/// What a node reaches at all, it reaches by a chain of no more edges
/// than the graph has nodes: to bound the chains by the number of nodes
/// loses nothing. And what it reaches within some number of edges it
/// reaches within any greater number.
pub proof fn lemma_reach_within_nodes(
    edges: Seq<Edge>,
    a: int,
    targets: Seq<usize>,
    steps: nat,
    n: nat,
)
    requires
        targets_below(edges, n),
        reaches_any(edges, a, targets, steps),
    ensures
        reaches_any(edges, a, targets, n),
        forall|more: nat| steps <= more ==> #[trigger] reaches_any(edges, a, targets, more),
{
    let walk = lemma_reaches_walk(edges, a, targets, steps);
    lemma_short_walk(edges, walk, targets, n);
    assert forall|more: nat| steps <= more implies #[trigger] reaches_any(
        edges,
        a,
        targets,
        more,
    ) by {
        lemma_walk_reaches(edges, walk, targets, more);
    }
}

/// Whether a chain of edges, of at most `fuel` edges, leads from `parent`
/// to a member of `descendants`.
fn has_anyof_descendants(
    g: &Graph<Node, Relation, Directed, u32>,
    parent: usize,
    descendants: &CourseSet,
    fuel: usize,
) -> (r: bool)
    requires
        parent < graph_nodes(*g).len(),
    ensures
        r == reaches_any(graph_edges(*g), parent as int, descendants@, fuel as nat),
    decreases fuel,
{
    if fuel == 0 {
        return false;
    }
    let out = out_edges(g, parent);
    let ghost edges = graph_edges(*g);
    let ghost all = outgoing(edges, parent as int);
    let mut i: usize = 0;
    while i < out.len()
        invariant
            i <= out.len(),
            fuel > 0,
            edges == graph_edges(*g),
            all == outgoing(edges, parent as int),
            all == pairs(out@),
            forall|k: int| 0 <= k < out@.len() ==> (#[trigger] out@[k]).0 < graph_nodes(*g).len(),
            forall|j: int|
                0 <= j < i ==> !descendants@.contains((#[trigger] all[j]).0 as usize) && !reaches_any(
                    edges,
                    all[j].0,
                    descendants@,
                    (fuel - 1) as nat,
                ),
        decreases out.len() - i,
    {
        let target = out[i].0;
        assert(all[i as int].0 == target as int);
        if descendants.contains(target) || has_anyof_descendants(g, target, descendants, fuel - 1) {
            proof {
                lemma_outgoing_sound(edges, parent as int, i as int);
            }
            return true;
        }
        i += 1;
    }
    proof {
        if reaches_any(edges, parent as int, descendants@, fuel as nat) {
            let k = choose|k: int|
                0 <= k < edges.len() && (#[trigger] edges[k]).source == parent as int && (
                descendants@.contains(edges[k].target as usize) || reaches_any(
                    edges,
                    edges[k].target,
                    descendants@,
                    (fuel - 1) as nat,
                ));
            lemma_outgoing_complete(edges, parent as int, k);
            let j = choose|j: int|
                0 <= j < all.len() && #[trigger] all[j] == (edges[k].target, edges[k].relation);
            assert(all[j].0 == edges[k].target);
        }
    }
    false
}

/// How two courses must be ordered. The edges alone decide: `lhs` comes
/// after `rhs` where a chain of edges leads from it to `rhs`; else before
/// `rhs` where a chain leads from `rhs` to it; and the two are
/// independent only where neither reaches the other. The weights of the
/// nodes have no say.
pub open spec fn course_order(edges: Seq<Edge>, nodes: Seq<NodeView>, lhs: int, rhs: int)
    -> Dependency {
    if reaches(edges, lhs, rhs, nodes.len()) {
        Dependency::After
    } else if reaches(edges, rhs, lhs, nodes.len()) {
        Dependency::Before
    } else {
        Dependency::Independent
    }
}

/// Whether a chain of edges, however long, leads from `a` to `b`.
pub open spec fn leads_to(edges: Seq<Edge>, a: int, b: int) -> bool {
    exists|steps: nat| #[trigger] reaches(edges, a, b, steps)
}

/// On a graph whose edges end at its nodes, `course_order` answers by
/// what the courses reach at all: after, where `lhs` leads to `rhs`;
/// else before, where `rhs` leads to `lhs`; and independent exactly
/// where neither leads to the other.
pub proof fn lemma_course_order(edges: Seq<Edge>, nodes: Seq<NodeView>, lhs: int, rhs: int)
    requires
        targets_below(edges, nodes.len()),
    ensures
        course_order(edges, nodes, lhs, rhs) == Dependency::After <==> leads_to(edges, lhs, rhs),
        course_order(edges, nodes, lhs, rhs) == Dependency::Before <==> !leads_to(edges, lhs, rhs)
            && leads_to(edges, rhs, lhs),
        course_order(edges, nodes, lhs, rhs) == Dependency::Independent <==> !leads_to(
            edges,
            lhs,
            rhs,
        ) && !leads_to(edges, rhs, lhs),
{
    if leads_to(edges, lhs, rhs) {
        let steps = choose|steps: nat| #[trigger] reaches(edges, lhs, rhs, steps);
        lemma_reach_within_nodes(edges, lhs, seq![rhs as usize], steps, nodes.len());
    }
    if leads_to(edges, rhs, lhs) {
        let steps = choose|steps: nat| #[trigger] reaches(edges, rhs, lhs, steps);
        lemma_reach_within_nodes(edges, rhs, seq![lhs as usize], steps, nodes.len());
    }
}

/// Whether a member of `from` reaches a member of `to`.
pub open spec fn set_reaches(edges: Seq<Edge>, from: Seq<usize>, to: Seq<usize>, steps: nat)
    -> bool {
    exists|i: int| 0 <= i < from.len() && reaches_any(edges, #[trigger] from[i] as int, to, steps)
}

/// How two sets of courses must be ordered.
pub open spec fn set_order(edges: Seq<Edge>, nodes: Seq<NodeView>, lhs: Seq<usize>, rhs: Seq<usize>)
    -> Dependency {
    if set_reaches(edges, lhs, rhs, nodes.len()) {
        Dependency::After
    } else if set_reaches(edges, rhs, lhs, nodes.len()) {
        Dependency::Before
    } else {
        Dependency::Independent
    }
}

/// Whether every member of `set` is a node of the graph.
pub open spec fn members_valid(nodes: Seq<NodeView>, set: Seq<usize>) -> bool {
    forall|i: int| 0 <= i < set.len() ==> (#[trigger] set[i]) < nodes.len()
}

/// Whether a member of `from` reaches a member of `to`.
fn any_reaches(g: &Graph<Node, Relation, Directed, u32>, from: &CourseSet, to: &CourseSet) -> (r:
    bool)
    requires
        members_valid(node_views(graph_nodes(*g)), from@),
    ensures
        r == set_reaches(graph_edges(*g), from@, to@, graph_nodes(*g).len()),
{
    let n = graph_node_count(g);
    let len = from.len();
    let mut i: usize = 0;
    while i < len
        invariant
            i <= len,
            len == from@.len(),
            n == graph_nodes(*g).len(),
            members_valid(node_views(graph_nodes(*g)), from@),
            forall|j: int|
                0 <= j < i ==> !reaches_any(graph_edges(*g), #[trigger] from@[j] as int, to@, n as nat),
        decreases len - i,
    {
        let course = from.get(i);
        if has_anyof_descendants(g, course, to, n) {
            return true;
        }
        i += 1;
    }
    false
}

impl CourseGraph {
    /// Whether `lhs` must be taken before or after `rhs`, or whether the
    /// two may be placed in either order. `lhs` comes after `rhs` where a
    /// chain of edges leads from it to `rhs`; else before `rhs` where a
    /// chain leads from `rhs` to it; the two are independent only where
    /// neither reaches the other. The weights only say which way to look
    /// first: the answer does not depend on them. A chain has at most as
    /// many edges as the graph has nodes, which is as far as any node is
    /// from one that it reaches (`lemma_reach_within_nodes`).
    pub fn course_dependency(&self, lhs: usize, rhs: usize) -> (r: Dependency)
        requires
            lhs < self.nodes().len(),
            rhs < self.nodes().len(),
            self.nodes()[lhs as int].ntype is Course,
            self.nodes()[rhs as int].ntype is Course,
        ensures
            r == course_order(self.edges(), self.nodes(), lhs as int, rhs as int),
    {
        let n = graph_node_count(&self.courses);
        let lhs_val = graph_node(&self.courses, lhs).val;
        let rhs_val = graph_node(&self.courses, rhs).val;
        let mut to_rhs = CourseSet::default();
        let mut to_lhs = CourseSet::default();
        to_rhs.push(rhs);
        to_lhs.push(lhs);
        assert(to_rhs@ =~= seq![rhs]);
        assert(to_lhs@ =~= seq![lhs]);
        if lhs_val <= rhs_val {
            // The lighter course is the likelier to lean on the other.
            if has_anyof_descendants(&self.courses, lhs, &to_rhs, n) {
                Dependency::After
            } else if has_anyof_descendants(&self.courses, rhs, &to_lhs, n) {
                Dependency::Before
            } else {
                Dependency::Independent
            }
        } else {
            let before = has_anyof_descendants(&self.courses, rhs, &to_lhs, n);
            if has_anyof_descendants(&self.courses, lhs, &to_rhs, n) {
                Dependency::After
            } else if before {
                Dependency::Before
            } else {
                Dependency::Independent
            }
        }
    }

    /// Whether the set `lhs` must come before or after the set `rhs`, or
    /// whether the two may be placed in either order: after, where a
    /// course of `lhs` leads to one of `rhs`; else before, where a course
    /// of `rhs` leads to one of `lhs`. It never answers `Together`. The
    /// answer is of use where the two sets do not depend on each other
    /// both ways.
    pub fn set_dependency(&self, lhs: &CourseSet, rhs: &CourseSet) -> (r: Dependency)
        requires
            members_valid(self.nodes(), lhs@),
            members_valid(self.nodes(), rhs@),
        ensures
            r == set_order(self.edges(), self.nodes(), lhs@, rhs@),
    {
        if any_reaches(&self.courses, lhs, rhs) {
            Dependency::After
        } else if any_reaches(&self.courses, rhs, lhs) {
            Dependency::Before
        } else {
            Dependency::Independent
        }
    }

    /// Swaps the course at `fst` in `lhs` with the one at `snd` in `rhs`
    /// where the two are independent, and says whether it did.
    pub fn swap_course(&self, lhs: &mut CourseSet, fst: usize, rhs: &mut CourseSet, snd: usize)
        -> (swapped: bool)
        requires
            fst < old(lhs)@.len(),
            snd < old(rhs)@.len(),
            old(lhs)@[fst as int] < self.nodes().len(),
            old(rhs)@[snd as int] < self.nodes().len(),
            self.nodes()[old(lhs)@[fst as int] as int].ntype is Course,
            self.nodes()[old(rhs)@[snd as int] as int].ntype is Course,
        ensures
            swapped == (course_order(
                self.edges(),
                self.nodes(),
                old(lhs)@[fst as int] as int,
                old(rhs)@[snd as int] as int,
            ) == Dependency::Independent),
            swapped ==> final(lhs)@ == old(lhs)@.update(fst as int, old(rhs)@[snd as int])
                && final(rhs)@ == old(rhs)@.update(snd as int, old(lhs)@[fst as int]),
            !swapped ==> final(lhs)@ == old(lhs)@ && final(rhs)@ == old(rhs)@,
    {
        let a = lhs.get(fst);
        let b = rhs.get(snd);
        match self.course_dependency(a, b) {
            Dependency::Independent => {
                lhs.set(fst, b);
                rhs.set(snd, a);
                true
            },
            _ => false,
        }
    }

    /// Swaps the sets at `fst` and `snd` where the two are independent,
    /// and says whether it did.
    pub fn swap_set(&self, ordered_sets: &mut Vec<CourseSet>, fst: usize, snd: usize) -> (swapped:
        bool)
        requires
            fst < old(ordered_sets).len(),
            snd < old(ordered_sets).len(),
            members_valid(self.nodes(), old(ordered_sets)@[fst as int]@),
            members_valid(self.nodes(), old(ordered_sets)@[snd as int]@),
        ensures
            swapped == (set_order(
                self.edges(),
                self.nodes(),
                old(ordered_sets)@[fst as int]@,
                old(ordered_sets)@[snd as int]@,
            ) == Dependency::Independent),
            swapped ==> final(ordered_sets)@ == old(ordered_sets)@.update(
                fst as int,
                old(ordered_sets)@[snd as int],
            ).update(snd as int, old(ordered_sets)@[fst as int]),
            !swapped ==> final(ordered_sets)@ == old(ordered_sets)@,
    {
        let a = ordered_sets[fst];
        let b = ordered_sets[snd];
        match self.set_dependency(&a, &b) {
            Dependency::Independent => {
                ordered_sets.set(fst, b);
                ordered_sets.set(snd, a);
                true
            },
            _ => false,
        }
    }
}

/// The nodes of the wanted courses from position `i` on that the graph
/// holds, in order.
pub open spec fn wanted_nodes(nodes: Seq<NodeView>, desired: Seq<CourseIdView>, i: int) -> Seq<
    usize,
>
    decreases desired.len() - i,
{
    if i < 0 || i >= desired.len() {
        Seq::empty()
    } else {
        match find_node(nodes, desired[i], 0) {
            Some(node) => seq![node as usize] + wanted_nodes(nodes, desired, i + 1),
            None => wanted_nodes(nodes, desired, i + 1),
        }
    }
}

/// The identifiers of a list of courses.
pub open spec fn id_views(ids: Seq<CourseId>) -> Seq<CourseIdView> {
    ids.map_values(|id: CourseId| id@)
}

/// The sets in which to take the wanted courses: those of the nodes of
/// the wanted courses, on the graph weighed for them.
pub open spec fn schedule_of(
    edges: Seq<Edge>,
    nodes: Seq<NodeView>,
    desired: Seq<CourseIdView>,
    capacity: int,
) -> Result<Seq<Seq<usize>>, ScheduleError> {
    let wanted = wanted_nodes(nodes, desired, 0);
    match count_from(edges, weights(nodes), wanted, 0, nodes.len()) {
        Err(e) => Err(e),
        Ok(vals) => build_from(edges, with_weights(nodes, vals), Seq::empty(), capacity, wanted, 0),
    }
}

impl CourseGraph {
    /// Weighs the graph for the wanted courses and lays them and what they
    /// require out in sets of at most `set_capacity` courses where that can
    /// be. A wanted course that the graph does not hold is passed over.
    /// The weights add to those that the graph holds already; where the
    /// weighing fails the graph stays as it is.
    pub fn schedule(&mut self, desired: &Vec<CourseId>, set_capacity: usize) -> (r: Result<
        Vec<CourseSet>,
        ScheduleError,
    >)
        ensures
            match schedule_of(
                old(self).edges(),
                old(self).nodes(),
                id_views(desired@),
                set_capacity as int,
            ) {
                Ok(sets) => r matches Ok(v) && set_views(v@) == sets,
                Err(e) => r matches Err(err) && err == e,
            },
            match count_from(
                old(self).edges(),
                weights(old(self).nodes()),
                wanted_nodes(old(self).nodes(), id_views(desired@), 0),
                0,
                old(self).nodes().len(),
            ) {
                Ok(vals) => final(self).nodes() == with_weights(old(self).nodes(), vals),
                Err(_) => final(self).nodes() == old(self).nodes(),
            },
            final(self).edges() == old(self).edges(),
    {
        let ghost ids = id_views(desired@);
        let ghost nodes = self.nodes();
        let mut wanted: Vec<usize> = Vec::new();
        let mut i: usize = 0;
        assert(wanted@ + wanted_nodes(nodes, ids, 0) =~= wanted_nodes(nodes, ids, 0));
        while i < desired.len()
            invariant
                i <= desired.len(),
                *self == *old(self),
                nodes == self.nodes(),
                ids == id_views(desired@),
                forall|j: int| 0 <= j < wanted@.len() ==> (#[trigger] wanted@[j]) < nodes.len(),
                wanted_nodes(nodes, ids, 0) == wanted@ + wanted_nodes(nodes, ids, i as int),
            decreases desired.len() - i,
        {
            let ghost before = wanted@;
            assert(ids[i as int] == desired@[i as int]@);
            match self.index_of(&desired[i]) {
                Some(node) => {
                    wanted.push(node);
                    assert(wanted@ + wanted_nodes(nodes, ids, i + 1) =~= before + (seq![node]
                        + wanted_nodes(nodes, ids, i + 1)));
                },
                None => {
                    proof {
                        crate::course_graph::lemma_find_node(nodes, ids[i as int], 0);
                    }
                },
            }
            i += 1;
        }
        assert(wanted@ + Seq::<usize>::empty() =~= wanted@);
        match self.count_dependents(wanted.as_slice()) {
            Err(e) => {
                return Err(e);
            },
            Ok(()) => {},
        }
        self.build_sets(wanted.as_slice(), set_capacity)
    }
}

} // verus!
