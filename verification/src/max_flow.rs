//! A network for flow problems: nodes, and edges with a capacity and a flow.
//! Every edge is put in together with its opposite, which runs the other way
//! with no capacity of its own and carries the negative of the flow.

use vstd::prelude::*;

verus! {

/// A capacity that stands for no limit.
pub const INF: i64 = 4611686018427387903;

/// An edge of a flow network.
#[derive(Debug, Clone, Copy, PartialEq, Eq)]
pub struct Edge {
    /// The node that the edge leaves.
    pub _from: usize,
    /// The node that the edge enters.
    pub to: usize,
    /// What goes through the edge; negative where more goes through its
    /// opposite.
    pub flow: i64,
    pub capacity: i64,
    /// The cost of a unit of flow.
    pub _cost: i64,
    /// The cost that the edge was made with.
    pub _original_cost: i64,
}

/// An edge without flow.
pub open spec fn fresh_edge(from: usize, to: usize, capacity: i64, cost: i64) -> Edge {
    Edge { _from: from, to, flow: 0, capacity, _cost: cost, _original_cost: cost }
}

impl Edge {
    /// An edge and its opposite, both without flow.
    pub fn new_with_cost(from: usize, to: usize, capacity: i64, cost: i64) -> (pair: [Edge; 2])
        requires
            cost > i64::MIN,
        ensures
            pair[0] == fresh_edge(from, to, capacity, cost),
            pair[1] == fresh_edge(to, from, 0, (-cost) as i64),
    {
        let forward = Edge {
            _from: from,
            to,
            capacity,
            flow: 0,
            _cost: cost,
            _original_cost: cost,
        };
        let backward = Edge {
            _from: to,
            to: from,
            capacity: 0,
            flow: 0,
            _cost: 0 - cost,
            _original_cost: 0 - cost,
        };
        [forward, backward]
    }

    /// How much more flow the edge takes.
    pub fn reamaining_capacity(&self) -> (rest: i64)
        requires
            i64::MIN <= self.capacity - self.flow <= i64::MAX,
        ensures
            rest == self.capacity - self.flow,
    {
        self.capacity - self.flow
    }

    /// Sends `bottleneck` more through the edge, and as much less through
    /// `residual`, its opposite.
    pub fn augment(&mut self, residual: &mut Edge, bottleneck: i64)
        requires
            i64::MIN <= old(self).flow + bottleneck <= i64::MAX,
            i64::MIN <= old(residual).flow - bottleneck <= i64::MAX,
        ensures
            *final(self) == (Edge { flow: (old(self).flow + bottleneck) as i64, ..*old(self) }),
            *final(residual) == (Edge {
                flow: (old(residual).flow - bottleneck) as i64,
                ..*old(residual)
            }),
    {
        self.flow = self.flow + bottleneck;
        residual.flow = residual.flow - bottleneck;
    }
}

/// The nodes of a flow network with the edges that leave each of them.
///
/// The edges stand in one list, an edge at an even place and its opposite
/// right after it; a node lists the places of the edges that leave it.
#[derive(Debug)]
pub struct NetworkFlowAdjacencyList {
    arcs: Vec<Edge>,
    edges: Vec<Vec<usize>>,
    pub source: usize,
    pub sink: usize,
}

/// The place of the opposite of the edge at `place`.
pub open spec fn opposite(place: int) -> int {
    if place % 2 == 0 {
        place + 1
    } else {
        place - 1
    }
}

impl NetworkFlowAdjacencyList {
    /// All edges, each followed or preceded by its opposite.
    pub closed spec fn arcs(&self) -> Seq<Edge> {
        self.arcs@
    }

    /// For each node the places, in `arcs`, of the edges that leave it, in
    /// the order in which they were added.
    pub closed spec fn adjacency(&self) -> Seq<Seq<usize>> {
        Seq::new(self.edges@.len(), |node: int| self.edges@[node]@)
    }

    /// The source of the flow.
    pub closed spec fn source_node(&self) -> usize {
        self.source
    }

    /// The sink of the flow.
    pub closed spec fn sink_node(&self) -> usize {
        self.sink
    }

    /// Every listed place holds an edge that leaves the node that lists it,
    /// and opposite edges join the same two nodes and carry opposite flows.
    pub open spec fn wf(&self) -> bool {
        &&& self.arcs().len() % 2 == 0
        &&& forall|node: int, i: int|
            0 <= node < self.adjacency().len() && 0 <= i < self.adjacency()[node].len() ==> {
                &&& (#[trigger] self.adjacency()[node][i]) < self.arcs().len()
                &&& self.arcs()[self.adjacency()[node][i] as int]._from == node
            }
        &&& forall|place: int|
            0 <= place < self.arcs().len() ==> {
                &&& (#[trigger] self.arcs()[place]).to == self.arcs()[opposite(place)]._from
                &&& self.arcs()[place].flow == -self.arcs()[opposite(place)].flow
                &&& self.arcs()[place].to < self.adjacency().len()
            }
    }

    /// A network of `n` nodes without edges. Until told otherwise, the last
    /// node is the source and the one before it the sink.
    pub fn with_size(n: usize) -> (graph: Self)
        requires
            n >= 2,
        ensures
            graph.wf(),
            graph.arcs() == Seq::<Edge>::empty(),
            graph.adjacency() == Seq::new(n as nat, |node: int| Seq::<usize>::empty()),
            graph.source_node() == n - 1,
            graph.sink_node() == n - 2,
    {
        let mut edges: Vec<Vec<usize>> = Vec::new();
        let mut node: usize = 0;
        while node < n
            invariant
                node <= n,
                edges@.len() == node,
                forall|i: int| 0 <= i < node ==> (#[trigger] edges@[i])@ == Seq::<usize>::empty(),
            decreases n - node,
        {
            edges.push(Vec::new());
            node += 1;
        }
        let graph = Self { arcs: Vec::new(), edges, source: n - 1, sink: n - 2 };
        assert(graph.adjacency() =~= Seq::new(n as nat, |node: int| Seq::<usize>::empty()));
        graph
    }

    /// The same network with another source and sink.
    pub fn and_source_sink(self, source: usize, sink: usize) -> (graph: Self)
        ensures
            graph.arcs() == self.arcs(),
            graph.adjacency() == self.adjacency(),
            graph.source_node() == source,
            graph.sink_node() == sink,
    {
        let mut graph = self;
        graph.source = source;
        graph.sink = sink;
        graph
    }

    /// Adds an edge of no cost, and its opposite.
    pub fn add_edge(&mut self, from: usize, to: usize, capacity: i64)
        requires
            old(self).wf(),
            from < old(self).adjacency().len(),
            to < old(self).adjacency().len(),
            old(self).arcs().len() + 2 <= usize::MAX,
        ensures
            final(self).wf(),
            final(self).source_node() == old(self).source_node(),
            final(self).sink_node() == old(self).sink_node(),
            final(self).arcs() == old(self).arcs().push(fresh_edge(from, to, capacity, 0)).push(
                fresh_edge(to, from, 0, 0),
            ),
            final(self).adjacency() == with_edge(
                old(self).adjacency(),
                from as int,
                to as int,
                old(self).arcs().len() as usize,
            ),
    {
        self.add_edge_with_cost(from, to, capacity, 0);
    }

    /// Adds an edge and its opposite, which costs the negative.
    pub fn add_edge_with_cost(&mut self, from: usize, to: usize, capacity: i64, cost: i64)
        requires
            old(self).wf(),
            from < old(self).adjacency().len(),
            to < old(self).adjacency().len(),
            cost > i64::MIN,
            old(self).arcs().len() + 2 <= usize::MAX,
        ensures
            final(self).wf(),
            final(self).source_node() == old(self).source_node(),
            final(self).sink_node() == old(self).sink_node(),
            final(self).arcs() == old(self).arcs().push(fresh_edge(from, to, capacity, cost)).push(
                fresh_edge(to, from, 0, (-cost) as i64),
            ),
            final(self).adjacency() == with_edge(
                old(self).adjacency(),
                from as int,
                to as int,
                old(self).arcs().len() as usize,
            ),
    {
        let pair = Edge::new_with_cost(from, to, capacity, cost);
        let place = self.arcs.len();
        self.arcs.push(pair[0]);
        self.arcs.push(pair[1]);
        self.edges[from].push(place);
        self.edges[to].push(place + 1);
        assert(self.adjacency() =~~= with_edge(
            old(self).adjacency(),
            from as int,
            to as int,
            place,
        ));
    }

    /// Sends `bottleneck` more through the `i`-th edge that leaves `node`,
    /// and as much less through its opposite.
    pub fn augment(&mut self, node: usize, i: usize, bottleneck: i64)
        requires
            old(self).wf(),
            node < old(self).adjacency().len(),
            i < old(self).adjacency()[node as int].len(),
            i64::MIN < old(self).arcs()[old(self).adjacency()[node as int][i as int] as int].flow
                + bottleneck <= i64::MAX,
        ensures
            final(self).wf(),
            final(self).source_node() == old(self).source_node(),
            final(self).sink_node() == old(self).sink_node(),
            final(self).adjacency() == old(self).adjacency(),
            final(self).arcs() == augmented(
                old(self).arcs(),
                old(self).adjacency()[node as int][i as int] as int,
                bottleneck,
            ),
    {
        assert(self.adjacency()[node as int][i as int] < self.arcs().len());
        let place = self.edges[node][i];
        let other = if place % 2 == 0 {
            place + 1
        } else {
            place - 1
        };
        assert(self.arcs()[place as int].flow == -self.arcs()[opposite(place as int)].flow);
        let mut edge = self.arcs[place];
        let mut residual = self.arcs[other];
        edge.augment(&mut residual, bottleneck);
        self.arcs[place] = edge;
        self.arcs[other] = residual;
        assert(self.adjacency() =~~= old(self).adjacency());
        assert(self.arcs() =~= augmented(old(self).arcs(), place as int, bottleneck));
        assert forall|at: int| 0 <= at < self.arcs().len() implies {
            &&& (#[trigger] self.arcs()[at]).to == self.arcs()[opposite(at)]._from
            &&& self.arcs()[at].flow == -self.arcs()[opposite(at)].flow
            &&& self.arcs()[at].to < self.adjacency().len()
        } by {
            assert(old(self).arcs()[at].to == old(self).arcs()[opposite(at)]._from);
        }
    }

    /// The number of nodes.
    pub fn node_count(&self) -> (n: usize)
        ensures
            n == self.adjacency().len(),
    {
        self.edges.len()
    }

    /// The edges that leave `node`, in the order in which they were added.
    pub fn edges_of(&self, node: usize) -> (edges: Vec<Edge>)
        requires
            self.wf(),
            node < self.adjacency().len(),
        ensures
            edges@ == Seq::new(
                self.adjacency()[node as int].len(),
                |i: int| self.arcs()[self.adjacency()[node as int][i] as int],
            ),
    {
        let mut edges: Vec<Edge> = Vec::new();
        let mut i: usize = 0;
        while i < self.edges[node].len()
            invariant
                self.wf(),
                node < self.edges@.len(),
                i <= self.edges@[node as int]@.len(),
                edges@.len() == i,
                forall|j: int|
                    0 <= j < i ==> #[trigger] edges@[j] == self.arcs@[self.edges@[node as int]@[j] as int],
            decreases self.edges@[node as int]@.len() - i,
        {
            assert(self.adjacency()[node as int][i as int] < self.arcs().len());
            edges.push(self.arcs[self.edges[node][i]]);
            i += 1;
        }
        assert(edges@ =~= Seq::new(
            self.adjacency()[node as int].len(),
            |i: int| self.arcs()[self.adjacency()[node as int][i] as int],
        ));
        edges
    }
}

/// The lists of the nodes after an edge from `from` to `to` was put at
/// `place` and its opposite right after it.
pub open spec fn with_edge(adjacency: Seq<Seq<usize>>, from: int, to: int, place: usize) -> Seq<
    Seq<usize>,
> {
    let forward = adjacency.update(from, adjacency[from].push(place));
    forward.update(to, forward[to].push((place + 1) as usize))
}

/// The edges after `bottleneck` more went through the one at `place`, and as
/// much less through its opposite.
pub open spec fn augmented(arcs: Seq<Edge>, place: int, bottleneck: i64) -> Seq<Edge> {
    arcs.update(
        place,
        Edge { flow: (arcs[place].flow + bottleneck) as i64, ..arcs[place] },
    ).update(
        opposite(place),
        Edge { flow: (arcs[opposite(place)].flow - bottleneck) as i64, ..arcs[opposite(place)] },
    )
}

/// The state of a search for the greatest flow through a network: the
/// network, and for each node its level, the number of edges on the shortest
/// way to it from the source that still takes flow.
pub struct DinicSolver<'a> {
    pub g: &'a mut NetworkFlowAdjacencyList,
    pub n: usize,
    pub levels: Vec<isize>,
}

impl<'a> DinicSolver<'a> {
    /// A search that has not begun: every level is 0.
    pub fn init(g: &'a mut NetworkFlowAdjacencyList) -> (solver: Self)
        ensures
            solver.n == old(g).adjacency().len(),
            solver.levels@ == Seq::new(solver.n as nat, |node: int| 0isize),
            *solver.g == *old(g),
    {
        let n = g.node_count();
        let mut levels: Vec<isize> = Vec::new();
        let mut node: usize = 0;
        while node < n
            invariant
                node <= n,
                levels@ == Seq::new(node as nat, |node: int| 0isize),
            decreases n - node,
        {
            levels.push(0);
            assert(levels@ =~= Seq::new((node + 1) as nat, |node: int| 0isize));
            node += 1;
        }
        Self { g, n, levels }
    }
}

} // verus!
