//! The control-flow graph.  The graph value itself is petgraph's directed
//! graph; the translator reasons about it through the names below: its
//! node count and its set of edges over node indices.

use vstd::prelude::*;

use crate::ir::{FuncV, OpIr};

verus! {

#[verifier::external_type_specification]
#[verifier::external_body]
#[verifier::reject_recursive_types(N)]
#[verifier::reject_recursive_types(E)]
#[verifier::reject_recursive_types(Ty)]
#[verifier::reject_recursive_types(Ix)]
pub struct ExGraph<N, E, Ty, Ix>(petgraph::graph::Graph<N, E, Ty, Ix>);

#[verifier::external_type_specification]
#[verifier::external_body]
pub struct ExDirected(petgraph::Directed);

/// The set of directed edges of the graph, as pairs of node indices.
pub uninterp spec fn graph_edges(g: petgraph::graph::DiGraph<(), ()>) -> Set<(int, int)>;

/// How many nodes the graph holds.
pub uninterp spec fn graph_node_count(g: petgraph::graph::DiGraph<(), ()>) -> nat;

/// How many times an edge was added (parallel edges counted separately).
pub uninterp spec fn graph_edge_count(g: petgraph::graph::DiGraph<(), ()>) -> nat;

/// `p` is a directed path from `a` to `b` over `edges`.
pub open spec fn is_path(edges: Set<(int, int)>, p: Seq<int>, a: int, b: int) -> bool {
    &&& p.len() >= 1
    &&& p[0] == a
    &&& p.last() == b
    &&& forall|k: int| 0 <= k < p.len() - 1 ==> #[trigger] edges.contains((p[k], p[k + 1]))
}

/// `b` is reachable from `a` over `edges`; trivially true for `a == b`.
pub open spec fn reach(edges: Set<(int, int)>, a: int, b: int) -> bool {
    exists|p: Seq<int>| is_path(edges, p, a, b)
}

pub proof fn lemma_reach_refl(edges: Set<(int, int)>, a: int)
    ensures
        reach(edges, a, a),
{
    assert(is_path(edges, seq![a], a, a));
}

/// Relies on petgraph's `Graph::new`: the new graph is empty.
#[verifier::external_body]
pub fn graph_new() -> (g: petgraph::graph::DiGraph<(), ()>)
    ensures
        graph_node_count(g) == 0,
        graph_edge_count(g) == 0,
        graph_edges(g) =~= Set::<(int, int)>::empty(),
{
    petgraph::graph::DiGraph::new()
}

/// Relies on petgraph's `Graph::add_node`: appends one node whose index
/// is the former node count and leaves the edges alone.
#[verifier::external_body]
pub fn graph_add_node(g: &mut petgraph::graph::DiGraph<(), ()>) -> (ix: usize)
    requires
        graph_node_count(*old(g)) + 1 < u32::MAX,
    ensures
        ix == graph_node_count(*old(g)),
        graph_node_count(*final(g)) == graph_node_count(*old(g)) + 1,
        graph_edge_count(*final(g)) == graph_edge_count(*old(g)),
        graph_edges(*final(g)) == graph_edges(*old(g)),
{
    g.add_node(()).index()
}

/// Relies on petgraph's `Graph::add_edge`: adds the directed edge
/// `a -> b` and changes nothing else.
#[verifier::external_body]
pub fn graph_add_edge(g: &mut petgraph::graph::DiGraph<(), ()>, a: usize, b: usize)
    requires
        a < graph_node_count(*old(g)),
        b < graph_node_count(*old(g)),
        graph_edge_count(*old(g)) + 1 < u32::MAX,
    ensures
        graph_node_count(*final(g)) == graph_node_count(*old(g)),
        graph_edge_count(*final(g)) == graph_edge_count(*old(g)) + 1,
        graph_edges(*final(g)) == graph_edges(*old(g)).insert((a as int, b as int)),
{
    g.add_edge(petgraph::graph::NodeIndex::new(a), petgraph::graph::NodeIndex::new(b), ());
}

/// Relies on petgraph's `Graph::contains_edge`.
#[verifier::external_body]
pub fn graph_has_edge(g: &petgraph::graph::DiGraph<(), ()>, a: usize, b: usize) -> (r: bool)
    requires
        a < graph_node_count(*g),
        b < graph_node_count(*g),
    ensures
        r == graph_edges(*g).contains((a as int, b as int)),
{
    g.contains_edge(petgraph::graph::NodeIndex::new(a), petgraph::graph::NodeIndex::new(b))
}

/// Relies on petgraph's `algo::has_path_connecting`: a depth-first search
/// from `a`, so the answer is whether `b` is reachable from `a` (always
/// true for `a == b`).
#[verifier::external_body]
pub fn graph_has_path(g: &petgraph::graph::DiGraph<(), ()>, a: usize, b: usize) -> (r: bool)
    requires
        a < graph_node_count(*g),
        b < graph_node_count(*g),
    ensures
        r == reach(graph_edges(*g), a as int, b as int),
{
    petgraph::algo::has_path_connecting(
        &*g,
        petgraph::graph::NodeIndex::new(a),
        petgraph::graph::NodeIndex::new(b),
        None,
    )
}

/// Node `n` appears somewhere in the component listing `r`.
pub open spec fn sccs_contain(r: Seq<Vec<usize>>, n: int) -> bool {
    exists|k: int, j: int| 0 <= k < r.len() && 0 <= j < r[k]@.len() && #[trigger] r[k]@[j] == n
}

/// Relies on petgraph's `algo::tarjan_scc`: it partitions the nodes into
/// strongly connected components, so every node appears in exactly one
/// group, two nodes of one group reach each other, and two mutually
/// reachable nodes share a group (components are maximal).  The
/// algorithm recurses once per node on the call stack, so a very deep
/// graph could exhaust the stack before returning.
#[verifier::external_body]
pub fn graph_sccs(g: &petgraph::graph::DiGraph<(), ()>) -> (r: Vec<Vec<usize>>)
    ensures
        forall|k: int| 0 <= k < r@.len() ==> (#[trigger] r@[k])@.len() >= 1,
        forall|k: int, j: int|
            0 <= k < r@.len() && 0 <= j < r@[k]@.len() ==> (#[trigger] r@[k]@[j])
                < graph_node_count(*g),
        forall|n: int| 0 <= n < graph_node_count(*g) ==> #[trigger] sccs_contain(r@, n),
        forall|k1: int, j1: int, k2: int, j2: int|
            0 <= k1 < r@.len() && 0 <= j1 < r@[k1]@.len() && 0 <= k2 < r@.len() && 0 <= j2
                < r@[k2]@.len() && #[trigger] r@[k1]@[j1] == #[trigger] r@[k2]@[j2] ==> k1 == k2
                && j1 == j2,
        forall|k: int, j1: int, j2: int|
            0 <= k < r@.len() && 0 <= j1 < r@[k]@.len() && 0 <= j2 < r@[k]@.len() ==> reach(
                graph_edges(*g),
                #[trigger] r@[k]@[j1] as int,
                #[trigger] r@[k]@[j2] as int,
            ),
        forall|k1: int, j1: int, k2: int, j2: int|
            0 <= k1 < r@.len() && 0 <= j1 < r@[k1]@.len() && 0 <= k2 < r@.len() && 0 <= j2
                < r@[k2]@.len() && reach(
                graph_edges(*g),
                #[trigger] r@[k1]@[j1] as int,
                #[trigger] r@[k2]@[j2] as int,
            ) && reach(graph_edges(*g), r@[k2]@[j2] as int, r@[k1]@[j1] as int) ==> k1 == k2,
{
    petgraph::algo::tarjan_scc(&*g)
        .into_iter()
        .map(|c| c.into_iter().map(|i| i.index()).collect())
        .collect()
}

/// The edges instruction `o`, standing in block `b`, adds to the set:
/// one per branch successor, in operand order.
pub open spec fn spec_edge_step(o: OpIr, b: int, s: Set<(int, int)>) -> Set<(int, int)> {
    match o {
        OpIr::Br { target } => s.insert((b, target as int)),
        OpIr::CondBr { then_target, else_target, .. } => s.insert((b, then_target as int)).insert(
            (b, else_target as int),
        ),
        _ => s,
    }
}

pub open spec fn spec_edges_in_block_upto(f: FuncV, b: int, i: int, s: Set<(int, int)>) -> Set<
    (int, int),
>
    decreases i,
{
    if i <= 0 {
        s
    } else {
        spec_edge_step(f.blocks[b].instrs[i - 1].op, b, spec_edges_in_block_upto(f, b, i - 1, s))
    }
}

pub open spec fn spec_edges_blocks_upto(f: FuncV, b: int) -> Set<(int, int)>
    decreases b,
{
    if b <= 0 {
        Set::empty()
    } else {
        spec_edges_in_block_upto(
            f,
            b - 1,
            f.blocks[b - 1].instrs.len() as int,
            spec_edges_blocks_upto(f, b - 1),
        )
    }
}

/// The edge set of the function's control-flow graph: one edge per branch
/// successor of every branch instruction.
pub open spec fn spec_cfg_edges(f: FuncV) -> Set<(int, int)> {
    spec_edges_blocks_upto(f, f.blocks.len() as int)
}

/// No two distinct blocks lie on a common cycle; self-loops are allowed.
/// This is the class of control flow the structural analysis understands.
pub open spec fn spec_reducible(f: FuncV) -> bool {
    forall|a: int, b: int|
        0 <= a < f.blocks.len() && 0 <= b < f.blocks.len() && a != b ==> !(#[trigger] reach(
            spec_cfg_edges(f),
            a,
            b,
        ) && #[trigger] reach(spec_cfg_edges(f), b, a))
}

/// The loop set when the flow is reducible: blocks that branch to themselves.
pub open spec fn spec_loop_blocks(f: FuncV) -> Set<int> {
    Set::new(|b: int| 0 <= b < f.blocks.len() && spec_cfg_edges(f).contains((b, b)))
}

/// Does every other block have a path to block `t`?
pub open spec fn spec_all_lead_to(f: FuncV, t: int) -> bool {
    forall|s: int|
        0 <= s < f.blocks.len() && s != t ==> #[trigger] reach(spec_cfg_edges(f), s, t)
}

/// The return block: the last block, in index order below `n`, that every
/// other block has a path to.
pub open spec fn spec_return_block_upto(f: FuncV, n: int) -> Option<int>
    decreases n,
{
    if n <= 0 {
        None
    } else if spec_all_lead_to(f, n - 1) {
        Some(n - 1)
    } else {
        spec_return_block_upto(f, n - 1)
    }
}

pub open spec fn spec_return_block(f: FuncV) -> Option<int> {
    spec_return_block_upto(f, f.blocks.len() as int)
}

} // verus!
