//! The dual graph of one scope: a port-level graph (vertices are ports,
//! edges producer to consumer) and a node-level multigraph (vertices are
//! nodes, one edge per connection, tagged with the port pair). Both are kept
//! in petgraph directed graphs behind trusted wrappers whose contracts speak
//! of the vertex-weight and edge lists; the acyclicity of the node graph is
//! the invariant every edit preserves, and an edit that would break it is
//! rejected with the graphs provably unchanged.

use vstd::prelude::*;

verus! {

/// A structural edit was rejected; the graph is unchanged.
#[derive(Clone, Copy, Debug, PartialEq, Eq, Structural)]
pub enum StructuralError {
    /// `connect` was given a consumer as producer or the other way round.
    ArityDirectionError,
    /// The edit would have made the port graph cyclic.
    CycleError,
    /// An index named an entity that does not exist or was tombstoned.
    StaleIndex,
}

#[verifier::external_type_specification]
#[verifier::external_body]
#[verifier::reject_recursive_types(N)]
#[verifier::reject_recursive_types(E)]
#[verifier::reject_recursive_types(Ty)]
#[verifier::reject_recursive_types(Ix)]
pub struct ExGraph<N, E, Ty, Ix>(petgraph::graph::Graph<N, E, Ty, Ix>);

#[verifier::external_type_specification]
#[verifier::external_body]
pub struct ExDirected(petgraph::Directed);

/// The vertex weights of the graph, in insertion order; a vertex's index is
/// its position here.
pub uninterp spec fn graph_nodes(g: petgraph::graph::DiGraph<u64, (u64, u64)>) -> Seq<u64>;

/// The edges of the graph, in insertion order: source vertex, target vertex,
/// and the two halves of the edge weight.
pub uninterp spec fn graph_edges(g: petgraph::graph::DiGraph<u64, (u64, u64)>) -> Seq<
    (usize, usize, u64, u64),
>;

/// Relies on `petgraph::graph::Graph::new`: a new graph has no vertices and
/// no edges.
#[verifier::external_body]
fn pg_new() -> (g: petgraph::graph::DiGraph<u64, (u64, u64)>)
    ensures
        graph_nodes(g).len() == 0,
        graph_edges(g).len() == 0,
{
    petgraph::graph::DiGraph::new()
}

/// Relies on `petgraph::graph::Graph::add_node`: appends a vertex and
/// returns its index, the number of vertices before the call. Panics only at
/// the index-type limit, which the precondition rules out.
#[verifier::external_body]
fn pg_add_node(g: &mut petgraph::graph::DiGraph<u64, (u64, u64)>, w: u64) -> (r: usize)
    requires
        graph_nodes(*old(g)).len() < 0xffff_ffff,
    ensures
        graph_nodes(*final(g)) == graph_nodes(*old(g)).push(w),
        graph_edges(*final(g)) == graph_edges(*old(g)),
        r == graph_nodes(*old(g)).len(),
{
    g.add_node(w).index()
}

/// Relies on `petgraph::graph::Graph::add_edge`: appends an edge from `a` to
/// `b` and returns its index, the number of edges before the call. Panics if
/// a vertex does not exist or at the index-type limit; the preconditions
/// rule both out. Parallel edges are allowed.
#[verifier::external_body]
fn pg_add_edge(
    g: &mut petgraph::graph::DiGraph<u64, (u64, u64)>,
    a: usize,
    b: usize,
    w0: u64,
    w1: u64,
) -> (r: usize)
    requires
        (a as int) < graph_nodes(*old(g)).len(),
        (b as int) < graph_nodes(*old(g)).len(),
        graph_edges(*old(g)).len() < 0xffff_ffff,
    ensures
        graph_edges(*final(g)) == graph_edges(*old(g)).push((a, b, w0, w1)),
        graph_nodes(*final(g)) == graph_nodes(*old(g)),
        r == graph_edges(*old(g)).len(),
{
    g.add_edge(
        petgraph::graph::NodeIndex::new(a),
        petgraph::graph::NodeIndex::new(b),
        (w0, w1),
    ).index()
}

/// Relies on `petgraph::graph::Graph::remove_edge`: removes the edge at
/// the given index and swaps the edge with the highest index into its
/// place; vertex weights are untouched, and an in-range index never
/// panics.
#[verifier::external_body]
fn pg_remove_edge(g: &mut petgraph::graph::DiGraph<u64, (u64, u64)>, i: usize)
    requires
        (i as int) < graph_edges(*old(g)).len(),
    ensures
        graph_edges(*final(g)) == graph_edges(*old(g)).update(
            i as int,
            graph_edges(*old(g)).last(),
        ).drop_last(),
        graph_nodes(*final(g)) == graph_nodes(*old(g)),
{
    let _ = g.remove_edge(petgraph::graph::EdgeIndex::new(i));
}

/// Relies on `petgraph::graph::Graph::node_count`: the number of vertices.
#[verifier::external_body]
fn pg_node_count(g: &petgraph::graph::DiGraph<u64, (u64, u64)>) -> (r: usize)
    ensures
        r == graph_nodes(*g).len(),
{
    g.node_count()
}

/// Relies on `petgraph::graph::Graph::edge_count`: the number of edges.
#[verifier::external_body]
fn pg_edge_count(g: &petgraph::graph::DiGraph<u64, (u64, u64)>) -> (r: usize)
    ensures
        r == graph_edges(*g).len(),
{
    g.edge_count()
}

/// Relies on `petgraph::algo::has_path_connecting`: a depth-first search
/// that reports whether `to` can be reached from `from` along directed
/// edges; a vertex is reachable from itself.
#[verifier::external_body]
fn pg_has_path(
    g: &petgraph::graph::DiGraph<u64, (u64, u64)>,
    from: usize,
    to: usize,
) -> (r: bool)
    requires
        (from as int) < graph_nodes(*g).len(),
        (to as int) < graph_nodes(*g).len(),
    ensures
        r == reachable(graph_edges(*g), from as int, to as int),
{
    petgraph::algo::has_path_connecting(
        g,
        petgraph::graph::NodeIndex::new(from),
        petgraph::graph::NodeIndex::new(to),
        None,
    )
}

/// The edge list holds an edge from `x` to `y`.
pub open spec fn edge_in(es: Seq<(usize, usize, u64, u64)>, x: int, y: int) -> bool {
    exists|j: int| 0 <= j < es.len() && (#[trigger] es[j]).0 == x && es[j].1 == y
}

/// `p` is a walk along edges of `es` from `from` to `to` (a single vertex is
/// a walk of length one).
pub open spec fn is_path(es: Seq<(usize, usize, u64, u64)>, p: Seq<int>, from: int, to: int) -> bool {
    &&& p.len() >= 1
    &&& p[0] == from
    &&& p[p.len() - 1] == to
    &&& forall|i: int| 0 <= i < p.len() - 1 ==> edge_in(es, #[trigger] p[i], p[i + 1])
}

/// Some walk along edges of `es` leads from `from` to `to`.
pub open spec fn reachable(es: Seq<(usize, usize, u64, u64)>, from: int, to: int) -> bool {
    exists|p: Seq<int>| is_path(es, p, from, to)
}

/// No edge's target reaches back to its source: the directed graph has no
/// cycle.
pub open spec fn acyclic(es: Seq<(usize, usize, u64, u64)>) -> bool {
    forall|j: int|
        0 <= j < es.len() ==> !reachable(es, ((#[trigger] es[j]).1) as int, (es[j].0) as int)
}

/// Whatever is reachable over a smaller edge list is reachable over a
/// larger one: the same walk works.
pub proof fn lemma_reach_subset(
    es1: Seq<(usize, usize, u64, u64)>,
    es2: Seq<(usize, usize, u64, u64)>,
    u: int,
    v: int,
)
    requires
        forall|x: int, y: int| #[trigger] edge_in(es2, x, y) ==> edge_in(es1, x, y),
        reachable(es2, u, v),
    ensures
        reachable(es1, u, v),
{
    let p = choose|p: Seq<int>| is_path(es2, p, u, v);
    assert forall|i: int| 0 <= i < p.len() - 1 implies edge_in(es1, #[trigger] p[i], p[i + 1]) by {
        assert(edge_in(es2, p[i], p[i + 1]));
    }
    assert(is_path(es1, p, u, v));
}

/// Removing one edge (by the swap that moves the last edge into its place)
/// keeps the graph acyclic.
pub proof fn lemma_acyclic_remove(es: Seq<(usize, usize, u64, u64)>, i: int)
    requires
        acyclic(es),
        0 <= i < es.len(),
    ensures
        acyclic(es.update(i, es.last()).drop_last()),
{
    let es2 = es.update(i, es.last()).drop_last();
    assert forall|x: int, y: int| #[trigger] edge_in(es2, x, y) implies edge_in(es, x, y) by {
        let j = choose|j: int| 0 <= j < es2.len() && (#[trigger] es2[j]).0 == x && es2[j].1 == y;
        if j == i {
            assert(es2[j] == es[es.len() - 1]);
        } else {
            assert(es2[j] == es[j]);
        }
    }
    assert forall|j: int| 0 <= j < es2.len() implies !reachable(
        es2,
        ((#[trigger] es2[j]).1) as int,
        (es2[j].0) as int,
    ) by {
        let x = (es2[j].0) as int;
        let y = (es2[j].1) as int;
        if reachable(es2, y, x) {
            lemma_reach_subset(es, es2, y, x);
            if j == i {
                assert(es2[j] == es[es.len() - 1]);
                assert(!reachable(es, y, x));
            } else {
                assert(es2[j] == es[j]);
                assert(!reachable(es, y, x));
            }
        }
    }
}

/// Every vertex reaches itself.
pub proof fn lemma_reach_refl(es: Seq<(usize, usize, u64, u64)>, x: int)
    ensures
        reachable(es, x, x),
{
    let p = seq![x];
    assert(is_path(es, p, x, x));
}

/// An edge is a walk of length two.
pub proof fn lemma_edge_reach(es: Seq<(usize, usize, u64, u64)>, x: int, y: int)
    requires
        edge_in(es, x, y),
    ensures
        reachable(es, x, y),
{
    let p = seq![x, y];
    assert(p[0] == x && p[p.len() - 1] == y);
    assert(is_path(es, p, x, y));
}

/// Walks compose.
pub proof fn lemma_reach_trans(es: Seq<(usize, usize, u64, u64)>, x: int, y: int, z: int)
    requires
        reachable(es, x, y),
        reachable(es, y, z),
    ensures
        reachable(es, x, z),
{
    let p1 = choose|p: Seq<int>| is_path(es, p, x, y);
    let p2 = choose|p: Seq<int>| is_path(es, p, y, z);
    let p = p1 + p2.subrange(1, p2.len() as int);
    assert(p.len() == p1.len() + p2.len() - 1);
    assert(p[0] == p1[0]);
    if p2.len() == 1 {
        assert(p =~= p1);
        assert(is_path(es, p, x, z));
    } else {
        assert(p[p.len() - 1] == p2[p2.len() - 1]);
        assert forall|i: int| 0 <= i < p.len() - 1 implies edge_in(es, #[trigger] p[i], p[i + 1]) by {
            if i < p1.len() - 1 {
                assert(p[i] == p1[i] && p[i + 1] == p1[i + 1]);
                assert(edge_in(es, p1[i], p1[i + 1]));
            } else if i == p1.len() - 1 {
                assert(p[i] == p1[p1.len() - 1]);
                assert(p1[p1.len() - 1] == y && p2[0] == y);
                assert(p[i + 1] == p2[1]);
                assert(edge_in(es, p2[0], p2[1]));
            } else {
                let j = i - p1.len() + 1;
                assert(p[i] == p2[j] && p[i + 1] == p2[j + 1]);
                assert(edge_in(es, p2[j], p2[j + 1]));
            }
        }
        assert(is_path(es, p, x, z));
    }
}

/// A walk in a grown edge list either avoids the new edge, and is a walk in
/// the old list, or crosses it, splitting into an old walk to the new
/// edge's source and an old walk from its target.
pub proof fn lemma_path_decompose(
    es: Seq<(usize, usize, u64, u64)>,
    e: (usize, usize, u64, u64),
    p: Seq<int>,
    u: int,
    v: int,
)
    requires
        is_path(es.push(e), p, u, v),
    ensures
        reachable(es, u, v) || (reachable(es, u, e.0 as int) && reachable(es, e.1 as int, v)),
    decreases p.len(),
{
    let es2 = es.push(e);
    if p.len() == 1 {
        lemma_reach_refl(es, u);
    } else {
        let w = p[1];
        assert(edge_in(es2, p[0], p[1]));
        let rest = p.subrange(1, p.len() as int);
        assert(rest[0] == w && rest[rest.len() - 1] == v && rest.len() >= 1);
        assert forall|i: int| 0 <= i < rest.len() - 1 implies edge_in(
            es2,
            #[trigger] rest[i],
            rest[i + 1],
        ) by {
            assert(rest[i] == p[i + 1] && rest[i + 1] == p[i + 2]);
            assert(edge_in(es2, p[i + 1], p[i + 2]));
        }
        assert(is_path(es2, rest, w, v));
        lemma_path_decompose(es, e, rest, w, v);
        let j = choose|j: int| 0 <= j < es2.len() && (#[trigger] es2[j]).0 == u && es2[j].1 == w;
        if j < es.len() {
            assert(edge_in(es, u, w));
            lemma_edge_reach(es, u, w);
            if reachable(es, w, v) {
                lemma_reach_trans(es, u, w, v);
            } else {
                lemma_reach_trans(es, u, w, e.0 as int);
            }
        } else {
            assert(es2[j] == e);
            assert(u == e.0 as int && w == e.1 as int);
            lemma_reach_refl(es, u);
            if reachable(es, w, v) {
            } else {
                assert(reachable(es, e.1 as int, v));
            }
        }
    }
}

/// Adding an edge whose target does not already reach its source keeps the
/// graph acyclic.
pub proof fn lemma_acyclic_push(es: Seq<(usize, usize, u64, u64)>, e: (usize, usize, u64, u64))
    requires
        acyclic(es),
        !reachable(es, e.1 as int, e.0 as int),
    ensures
        acyclic(es.push(e)),
{
    let es2 = es.push(e);
    assert forall|j: int| 0 <= j < es2.len() implies !reachable(
        es2,
        ((#[trigger] es2[j]).1) as int,
        (es2[j].0) as int,
    ) by {
        let x = (es2[j].0) as int;
        let y = (es2[j].1) as int;
        if reachable(es2, y, x) {
            let p = choose|p: Seq<int>| is_path(es2, p, y, x);
            lemma_path_decompose(es, e, p, y, x);
            if j < es.len() {
                assert(es2[j] == es[j]);
                if reachable(es, y, x) {
                    assert(!reachable(es, y, x));
                } else {
                    assert(reachable(es, y, e.0 as int) && reachable(es, e.1 as int, x));
                    assert(edge_in(es, x, y)) by {
                        assert((es[j].0) as int == x && (es[j].1) as int == y);
                    }
                    lemma_edge_reach(es, x, y);
                    lemma_reach_trans(es, e.1 as int, x, y);
                    lemma_reach_trans(es, e.1 as int, y, e.0 as int);
                }
            } else {
                assert(es2[j] == e);
                if reachable(es, y, x) {
                } else {
                    assert(reachable(es, y, e.0 as int));
                    assert(y == e.1 as int && x == e.0 as int);
                }
            }
        }
    }
}

/// The dual graph of one scope. The port graph's vertices are ports (the
/// weight encodes the port's arena position); its edges run producer to
/// consumer and carry the owning node pair. The node graph's vertices are
/// nodes; its edges carry the port pair of the connection. The two stay
/// mutually consistent edge by edge, and the node graph stays acyclic.
pub struct PortAndNodeGraph {
    /// Vertices are ports; edge weights are (producer node, consumer node).
    pub port_graph: petgraph::graph::DiGraph<u64, (u64, u64)>,
    /// Vertices are nodes; edge weights are (output port, input port).
    pub node_graph: petgraph::graph::DiGraph<u64, (u64, u64)>,
}

impl PortAndNodeGraph {
    /// The scope-graph invariant: one node edge per port edge, with matching
    /// tags, and no cycle among nodes.
    pub open spec fn wf(self) -> bool {
        &&& graph_edges(self.port_graph).len() == graph_edges(self.node_graph).len()
        &&& forall|j: int|
            0 <= j < graph_edges(self.port_graph).len() ==> {
                let pe = #[trigger] graph_edges(self.port_graph)[j];
                let ne = graph_edges(self.node_graph)[j];
                pe.2 == ne.0 && pe.3 == ne.1 && ne.2 == pe.0 && ne.3 == pe.1
            }
        &&& acyclic(graph_edges(self.node_graph))
    }

    /// An empty scope.
    pub fn new() -> (r: PortAndNodeGraph)
        ensures
            r.wf(),
            graph_nodes(r.port_graph).len() == 0,
            graph_nodes(r.node_graph).len() == 0,
            graph_edges(r.port_graph).len() == 0,
            graph_edges(r.node_graph).len() == 0,
    {
        let r = PortAndNodeGraph { port_graph: pg_new(), node_graph: pg_new() };
        r
    }

    /// Add a vertex for a node; returns its vertex index.
    pub fn add_node_vertex(&mut self, node_code: u64) -> (r: usize)
        requires
            old(self).wf(),
            graph_nodes(old(self).node_graph).len() < 0xffff_ffff,
        ensures
            final(self).wf(),
            graph_nodes(final(self).node_graph) == graph_nodes(old(self).node_graph).push(
                node_code,
            ),
            graph_edges(final(self).node_graph) == graph_edges(old(self).node_graph),
            final(self).port_graph == old(self).port_graph,
            r == graph_nodes(old(self).node_graph).len(),
    {
        pg_add_node(&mut self.node_graph, node_code)
    }

    /// Add a vertex for a port; returns its vertex index.
    pub fn add_port_vertex(&mut self, port_code: u64) -> (r: usize)
        requires
            old(self).wf(),
            graph_nodes(old(self).port_graph).len() < 0xffff_ffff,
        ensures
            final(self).wf(),
            graph_nodes(final(self).port_graph) == graph_nodes(old(self).port_graph).push(
                port_code,
            ),
            graph_edges(final(self).port_graph) == graph_edges(old(self).port_graph),
            final(self).node_graph == old(self).node_graph,
            r == graph_nodes(old(self).port_graph).len(),
    {
        pg_add_node(&mut self.port_graph, port_code)
    }

    /// The number of node vertices.
    pub fn node_count(&self) -> (r: usize)
        ensures
            r == graph_nodes(self.node_graph).len(),
    {
        pg_node_count(&self.node_graph)
    }

    /// The number of port vertices.
    pub fn port_count(&self) -> (r: usize)
        ensures
            r == graph_nodes(self.port_graph).len(),
    {
        pg_node_count(&self.port_graph)
    }

    /// The number of connections.
    pub fn edge_count(&self) -> (r: usize)
        ensures
            r == graph_edges(self.node_graph).len(),
    {
        pg_edge_count(&self.node_graph)
    }

    /// Remove the connection at edge index `i` from both graphs: in each,
    /// the edge with the highest index moves into place `i`. Acyclicity and
    /// the edge-by-edge consistency of the two graphs are preserved.
    pub fn disconnect_edge(&mut self, i: usize)
        requires
            old(self).wf(),
            (i as int) < graph_edges(old(self).node_graph).len(),
        ensures
            final(self).wf(),
            graph_edges(final(self).node_graph) == graph_edges(old(self).node_graph).update(
                i as int,
                graph_edges(old(self).node_graph).last(),
            ).drop_last(),
            graph_edges(final(self).port_graph) == graph_edges(old(self).port_graph).update(
                i as int,
                graph_edges(old(self).port_graph).last(),
            ).drop_last(),
            graph_nodes(final(self).node_graph) == graph_nodes(old(self).node_graph),
            graph_nodes(final(self).port_graph) == graph_nodes(old(self).port_graph),
    {
        pg_remove_edge(&mut self.node_graph, i);
        pg_remove_edge(&mut self.port_graph, i);
        proof {
            let pe0 = graph_edges(old(self).port_graph);
            let ne0 = graph_edges(old(self).node_graph);
            let pe = graph_edges(self.port_graph);
            let ne = graph_edges(self.node_graph);
            assert forall|j: int| 0 <= j < pe.len() implies {
                let x = #[trigger] pe[j];
                let y = ne[j];
                x.2 == y.0 && x.3 == y.1 && y.2 == x.0 && y.3 == x.1
            } by {
                if j == i {
                    assert(pe[j] == pe0[pe0.len() - 1]);
                    assert(ne[j] == ne0[ne0.len() - 1]);
                } else {
                    assert(pe[j] == pe0[j]);
                    assert(ne[j] == ne0[j]);
                }
            }
            lemma_acyclic_remove(ne0, i as int);
        }
    }

    /// Whether the node vertex `to` is already reachable from `from`, in
    /// which case an edge from `to`'s owner to `from`'s owner would close a
    /// cycle.
    pub fn would_cycle(&self, from: usize, to: usize) -> (r: bool)
        requires
            (from as int) < graph_nodes(self.node_graph).len(),
            (to as int) < graph_nodes(self.node_graph).len(),
        ensures
            r == reachable(graph_edges(self.node_graph), from as int, to as int),
    {
        pg_has_path(&self.node_graph, from, to)
    }

    /// Connect an output port to an input port: vertex `out_port` of the
    /// port graph, owned by node vertex `out_node`, feeds vertex `in_port`,
    /// owned by node vertex `in_node`. The edit is rejected, and both graphs
    /// are left exactly as they were, when the consumer's node already
    /// reaches the producer's node, since that edge would close a cycle;
    /// otherwise one edge is appended to each graph and the node graph stays
    /// acyclic.
    pub fn connect_edge(
        &mut self,
        out_port: usize,
        in_port: usize,
        out_node: usize,
        in_node: usize,
    ) -> (r: Result<(), StructuralError>)
        requires
            old(self).wf(),
            (out_port as int) < graph_nodes(old(self).port_graph).len(),
            (in_port as int) < graph_nodes(old(self).port_graph).len(),
            (out_node as int) < graph_nodes(old(self).node_graph).len(),
            (in_node as int) < graph_nodes(old(self).node_graph).len(),
            graph_edges(old(self).port_graph).len() < 0xffff_ffff,
        ensures
            final(self).wf(),
            (r matches Err(e) ==> e == StructuralError::CycleError && *final(self) == *old(self)
                && reachable(
                graph_edges(old(self).node_graph),
                in_node as int,
                out_node as int,
            )),
            (r is Ok ==> !reachable(
                graph_edges(old(self).node_graph),
                in_node as int,
                out_node as int,
            ) && graph_edges(final(self).node_graph) == graph_edges(old(self).node_graph).push(
                (out_node, in_node, out_port as u64, in_port as u64),
            ) && graph_edges(final(self).port_graph) == graph_edges(old(self).port_graph).push(
                (out_port, in_port, out_node as u64, in_node as u64),
            ) && graph_nodes(final(self).node_graph) == graph_nodes(old(self).node_graph)
                && graph_nodes(final(self).port_graph) == graph_nodes(old(self).port_graph)),
    {
        if pg_has_path(&self.node_graph, in_node, out_node) {
            return Err(StructuralError::CycleError);
        }
        proof {
            lemma_acyclic_push(
                graph_edges(self.node_graph),
                (out_node, in_node, out_port as u64, in_port as u64),
            );
        }
        pg_add_edge(
            &mut self.node_graph,
            out_node,
            in_node,
            out_port as u64,
            in_port as u64,
        );
        pg_add_edge(
            &mut self.port_graph,
            out_port,
            in_port,
            out_node as u64,
            in_node as u64,
        );
        Ok(())
    }
}

} // verus!
