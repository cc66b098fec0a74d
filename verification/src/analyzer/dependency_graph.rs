//! The dependency relationship graph: one node for every declared
//! dependency, directed "depends on" edges where they are known, cycle
//! detection and reachability.
//!
//! The graph itself is a `petgraph` graph. What the contracts say of it they
//! say over two sequences: the names of its nodes in the order of their
//! indices, and its edges as pairs of node indices in the order in which
//! they were added.

use crate::analyzer::metrics::record_names;
use crate::manifest::cargo::{CargoDependency, records, texts};
use crate::name_map::{NameMap, distinct_names};
use vstd::prelude::*;

verus! {

/// petgraph's `Graph`, of which nothing is known but what the functions
/// below say.
#[verifier::external_type_specification]
#[verifier::external_body]
#[verifier::reject_recursive_types(N)]
#[verifier::reject_recursive_types(E)]
#[verifier::reject_recursive_types(Ty)]
#[verifier::reject_recursive_types(Ix)]
pub struct ExGraph<N, E, Ty, Ix>(petgraph::graph::Graph<N, E, Ty, Ix>);

/// petgraph's marker for graphs with directed edges.
#[verifier::external_type_specification]
#[verifier::external_body]
pub struct ExDirected(petgraph::Directed);

/// The names that the nodes of a graph carry, by node index.
pub uninterp spec fn graph_nodes(
    g: petgraph::graph::Graph<String, (), petgraph::Directed, u32>,
) -> Seq<Seq<char>>;

/// The edges of a graph, each as the indices of its source and its target,
/// in the order in which they were added.
pub uninterp spec fn graph_edges(
    g: petgraph::graph::Graph<String, (), petgraph::Directed, u32>,
) -> Seq<(int, int)>;

/// The strongly connected components that the decomposition reports for a
/// graph, in the order in which it reports them. The order of the nodes
/// within a component follows the lists of edges that the graph keeps for
/// each node, which the edges by index do not tell: so this is a name over
/// the graph itself.
pub uninterp spec fn component_order(
    g: petgraph::graph::Graph<String, (), petgraph::Directed, u32>,
) -> Seq<Seq<int>>;

/// The text of a graph in the DOT language.
pub uninterp spec fn dot_text(nodes: Seq<Seq<char>>, edges: Seq<(int, int)>) -> Seq<char>;

/// The largest number of nodes, and of edges, that a graph can hold.
pub const GRAPH_CAPACITY: usize = 0xffff_ffff;

/// `p` is a walk along the edges: a sequence of at least one node in which
/// an edge leads from each node to the next.
pub open spec fn is_walk(edges: Seq<(int, int)>, p: Seq<int>) -> bool {
    &&& p.len() > 0
    &&& forall|i: int| 0 <= i < p.len() - 1 ==> #[trigger] walk_step(edges, p, i)
}

/// An edge leads from the node at position `i` of `p` to the next.
pub open spec fn walk_step(edges: Seq<(int, int)>, p: Seq<int>, i: int) -> bool {
    edges.contains((p[i], p[i + 1]))
}

/// A directed path leads from `a` to `b`. Every node reaches itself.
pub open spec fn reaches(edges: Seq<(int, int)>, a: int, b: int) -> bool {
    exists|p: Seq<int>| is_walk(edges, p) && #[trigger] p.first() == a && p.last() == b
}

/// Each of `a` and `b` reaches the other.
pub open spec fn mutually_reachable(edges: Seq<(int, int)>, a: int, b: int) -> bool {
    reaches(edges, a, b) && reaches(edges, b, a)
}

/// `(i, j)` is a position in `comps`.
pub open spec fn in_component(comps: Seq<Seq<int>>, i: int, j: int) -> bool {
    0 <= i < comps.len() && 0 <= j < comps[i].len()
}

/// The node `v` is at some position in `comps`.
pub open spec fn holds_node(comps: Seq<Seq<int>>, v: int) -> bool {
    exists|i: int, j: int| in_component(comps, i, j) && #[trigger] comps[i][j] == v
}

/// `comps` is the decomposition of the graph into its strongly connected
/// components, in reverse topological order: every node is at exactly one
/// position, two nodes are in the same component exactly when each reaches
/// the other, and no component reaches a later one.
pub open spec fn is_scc_decomposition(comps: Seq<Seq<int>>, nodes: nat, edges: Seq<(int, int)>) -> bool {
    &&& forall|i: int, j: int| in_component(comps, i, j) ==> 0 <= #[trigger] comps[i][j] < nodes
    &&& forall|v: int| 0 <= v < nodes ==> #[trigger] holds_node(comps, v)
    &&& forall|i: int, j: int, k: int, l: int|
        in_component(comps, i, j) && in_component(comps, k, l) && #[trigger] comps[i][j]
            == #[trigger] comps[k][l] ==> i == k && j == l
    &&& forall|i: int, j: int, k: int, l: int|
        in_component(comps, i, j) && in_component(comps, k, l) ==> ((i == k)
            <==> mutually_reachable(edges, #[trigger] comps[i][j], #[trigger] comps[k][l]))
    &&& forall|i: int, j: int, k: int, l: int|
        in_component(comps, i, j) && in_component(comps, k, l) && i < k ==> !reaches(
            edges,
            #[trigger] comps[i][j],
            #[trigger] comps[k][l],
        )
}

/// What a decomposition says of one position, and of two.
pub proof fn lemma_decomposition(
    comps: Seq<Seq<int>>,
    nodes: nat,
    edges: Seq<(int, int)>,
    i: int,
    j: int,
    k: int,
    l: int,
)
    requires
        is_scc_decomposition(comps, nodes, edges),
        in_component(comps, i, j),
        in_component(comps, k, l),
    ensures
        0 <= comps[i][j] < nodes,
        comps[i][j] == comps[k][l] ==> i == k && j == l,
        (i == k) <==> mutually_reachable(edges, comps[i][j], comps[k][l]),
        i < k ==> !reaches(edges, comps[i][j], comps[k][l]),
{
    reveal(is_scc_decomposition);
}

/// A decomposition holds every node: the position of the node `v`.
pub proof fn lemma_decomposition_covers(
    comps: Seq<Seq<int>>,
    nodes: nat,
    edges: Seq<(int, int)>,
    v: int,
) -> (at: (int, int))
    requires
        is_scc_decomposition(comps, nodes, edges),
        0 <= v < nodes,
    ensures
        in_component(comps, at.0, at.1),
        comps[at.0][at.1] == v,
{
    reveal(is_scc_decomposition);
    assert(holds_node(comps, v));
    choose|i: int, j: int| in_component(comps, i, j) && #[trigger] comps[i][j] == v
}

/// The components as sequences of node indices.
pub open spec fn component_view(comps: Seq<Vec<usize>>) -> Seq<Seq<int>> {
    comps.map_values(|c: Vec<usize>| c@.map_values(|x: usize| x as int))
}

/// The names of the nodes of a component.
pub open spec fn group_names(nodes: Seq<Seq<char>>, component: Seq<int>) -> Seq<Seq<char>> {
    component.map_values(|x: int| nodes[x])
}

/// The circular-dependency groups of a decomposition: the components of
/// more than one node, each as the names of its nodes, in the order of the
/// decomposition.
pub open spec fn circular_groups(nodes: Seq<Seq<char>>, comps: Seq<Seq<int>>) -> Seq<
    Seq<Seq<char>>,
>
    decreases comps.len(),
{
    if comps.len() == 0 {
        Seq::empty()
    } else if comps.last().len() > 1 {
        circular_groups(nodes, comps.drop_last()).push(group_names(nodes, comps.last()))
    } else {
        circular_groups(nodes, comps.drop_last())
    }
}

/// The names held by a sequence of groups.
pub open spec fn groups_view(groups: Seq<Vec<String>>) -> Seq<Seq<Seq<char>>> {
    groups.map_values(|g: Vec<String>| texts(g@))
}

/// petgraph's `Graph::new`: a directed graph without nodes or edges.
#[verifier::external_body]
fn graph_new() -> (g: petgraph::graph::Graph<String, (), petgraph::Directed, u32>)
    ensures
        graph_nodes(g) == Seq::<Seq<char>>::empty(),
        graph_edges(g) == Seq::<(int, int)>::empty(),
{
    petgraph::graph::Graph::new()
}

/// petgraph's `Graph::add_node`: appends a node that carries `name` and
/// returns its index, which is the number of nodes before the call. The
/// call panics where the graph holds the largest number of nodes that the
/// index type can tell apart.
#[verifier::external_body]
fn graph_add_node(
    g: &mut petgraph::graph::Graph<String, (), petgraph::Directed, u32>,
    name: String,
) -> (index: usize)
    requires
        graph_nodes(*old(g)).len() < GRAPH_CAPACITY,
    ensures
        graph_nodes(*final(g)) == graph_nodes(*old(g)).push(name@),
        graph_edges(*final(g)) == graph_edges(*old(g)),
        index == graph_nodes(*old(g)).len(),
{
    g.add_node(name).index()
}

/// petgraph's `Graph::add_edge`: appends an edge from the node `from` to the
/// node `to`; parallel edges are kept. The call panics where one of the nodes
/// does not exist or the graph holds the largest number of edges.
#[verifier::external_body]
fn graph_add_edge(
    g: &mut petgraph::graph::Graph<String, (), petgraph::Directed, u32>,
    from: usize,
    to: usize,
)
    requires
        from < graph_nodes(*old(g)).len(),
        to < graph_nodes(*old(g)).len(),
        graph_edges(*old(g)).len() < GRAPH_CAPACITY,
    ensures
        graph_nodes(*final(g)) == graph_nodes(*old(g)),
        graph_edges(*final(g)) == graph_edges(*old(g)).push((from as int, to as int)),
{
    g.add_edge(petgraph::graph::NodeIndex::new(from), petgraph::graph::NodeIndex::new(to), ());
}

/// petgraph's `Graph::node_count`.
#[verifier::external_body]
fn graph_node_count(g: &petgraph::graph::Graph<String, (), petgraph::Directed, u32>) -> (n: usize)
    ensures
        n == graph_nodes(*g).len(),
{
    g.node_count()
}

/// petgraph's `Graph::edge_count`.
#[verifier::external_body]
fn graph_edge_count(g: &petgraph::graph::Graph<String, (), petgraph::Directed, u32>) -> (n: usize)
    ensures
        n == graph_edges(*g).len(),
{
    g.edge_count()
}

/// Indexing a petgraph `Graph` by a node index: the name that the node
/// carries. It panics where the node does not exist.
#[verifier::external_body]
fn graph_node_name(
    g: &petgraph::graph::Graph<String, (), petgraph::Directed, u32>,
    index: usize,
) -> (name: String)
    requires
        index < graph_nodes(*g).len(),
    ensures
        name@ == graph_nodes(*g)[index as int],
{
    g[petgraph::graph::NodeIndex::new(index)].clone()
}

/// petgraph's `algo::tarjan_scc`: the strongly connected components of the
/// graph, each a list of node indices. The order of the components is
/// reverse topological; the order of the nodes within a component is the one
/// in which the algorithm finds them, which the contract names and does not
/// describe. The algorithm is recursive: the depth of its recursion grows
/// with the longest chain of nodes, and with it the stack that it needs.
#[verifier::external_body]
fn graph_strong_components(
    g: &petgraph::graph::Graph<String, (), petgraph::Directed, u32>,
) -> (comps: Vec<Vec<usize>>)
    ensures
        component_view(comps@) == component_order(*g),
        is_scc_decomposition(component_view(comps@), graph_nodes(*g).len(), graph_edges(*g)),
{
    let found = petgraph::algo::tarjan_scc(g);
    found.into_iter().map(|c| c.into_iter().map(|ix| ix.index()).collect()).collect()
}

/// petgraph's `algo::has_path_connecting`: whether a directed path leads
/// from `from` to `to`; it does where the two are the same node.
#[verifier::external_body]
fn graph_has_path(
    g: &petgraph::graph::Graph<String, (), petgraph::Directed, u32>,
    from: usize,
    to: usize,
) -> (r: bool)
    requires
        from < graph_nodes(*g).len(),
        to < graph_nodes(*g).len(),
    ensures
        r == reaches(graph_edges(*g), from as int, to as int),
{
    let a = petgraph::graph::NodeIndex::new(from);
    let b = petgraph::graph::NodeIndex::new(to);
    petgraph::algo::has_path_connecting(g, a, b, None)
}

/// The `Debug` text of petgraph's `dot::Dot` with `Config::EdgeNoLabel`: the
/// graph in the DOT language. The contract names the text and does not
/// describe it.
#[verifier::external_body]
fn graph_dot(g: &petgraph::graph::Graph<String, (), petgraph::Directed, u32>) -> (s: String)
    ensures
        s@ == dot_text(graph_nodes(*g), graph_edges(*g)),
{
    let config = [petgraph::dot::Config::EdgeNoLabel];
    format!("{:?}", petgraph::dot::Dot::with_config(g, &config))
}

/// Why an edge could not be added.
#[derive(Debug)]
pub enum GraphError {
    /// The graph has no node for the dependent.
    DependentNotFound(String),
    /// The graph has no node for the dependency.
    DependencyNotFound(String),
}

impl GraphError {
    /// The error in words.
    pub fn message(&self) -> (s: String)
        ensures
            s@ == match self {
                GraphError::DependentNotFound(n) => "Dependent "@ + n@ + " not found in graph"@,
                GraphError::DependencyNotFound(n) => "Dependency "@ + n@ + " not found in graph"@,
            },
    {
        match self {
            GraphError::DependentNotFound(n) => crate::text::concat3(
                "Dependent ",
                n.as_str(),
                " not found in graph",
            ),
            GraphError::DependencyNotFound(n) => crate::text::concat3(
                "Dependency ",
                n.as_str(),
                " not found in graph",
            ),
        }
    }
}

/// The dependency graph of a project.
///
/// The functions of this type only ever append nodes and edges.
#[derive(Debug)]
pub struct DependencyGraph {
    /// The graph: a node for each declared dependency, an edge for each known
    /// relationship.
    pub graph: petgraph::graph::Graph<String, (), petgraph::Directed, u32>,
    /// The node index of each dependency name.
    pub node_indices: NameMap<usize>,
}

impl DependencyGraph {
    /// The names of the nodes, by node index.
    pub open spec fn nodes(&self) -> Seq<Seq<char>> {
        graph_nodes(self.graph)
    }

    /// The edges as pairs of node indices, dependent first.
    pub open spec fn edges(&self) -> Seq<(int, int)> {
        graph_edges(self.graph)
    }

    /// The graph holds no more nodes and edges than it can index, every edge
    /// joins two of its nodes, and the index map holds exactly the names of
    /// the nodes, each with the index of a node of that name.
    pub open spec fn wf(&self) -> bool {
        &&& self.nodes().len() <= GRAPH_CAPACITY
        &&& self.edges().len() <= GRAPH_CAPACITY
        &&& forall|k: int|
            0 <= k < self.edges().len() ==> 0 <= (#[trigger] self.edges()[k]).0 < self.nodes().len()
                && 0 <= self.edges()[k].1 < self.nodes().len()
        &&& self.node_indices.wf()
        &&& self.node_indices.names() == distinct_names(self.nodes())
        &&& forall|k: int|
            0 <= k < self.node_indices.values().len() ==> (#[trigger] self.node_indices.values()[k])
                < self.nodes().len() && self.nodes()[self.node_indices.values()[k] as int]
                == self.node_indices.names()[k]
    }

    /// The index of the node of `name`.
    pub open spec fn index_of(&self, name: Seq<char>) -> Option<int> {
        match self.node_indices.value_of(name) {
            Some(i) => Some(i as int),
            None => None,
        }
    }

    /// A directed path leads from the node of `from` to the node of `to`.
    pub open spec fn connects(&self, from: Seq<char>, to: Seq<char>) -> bool {
        &&& self.index_of(from) is Some
        &&& self.index_of(to) is Some
        &&& reaches(self.edges(), self.index_of(from)->0, self.index_of(to)->0)
    }

    /// The graph with a node for each of the dependencies, in their order,
    /// and no edge.
    pub fn new(dependencies: &Vec<CargoDependency>) -> (g: Self)
        requires
            dependencies.len() <= GRAPH_CAPACITY,
        ensures
            g.wf(),
            g.nodes() == record_names(records(dependencies@)),
            g.edges() == Seq::<(int, int)>::empty(),
    {
        let mut graph = graph_new();
        let mut node_indices: NameMap<usize> = NameMap::new();
        let ghost names = record_names(records(dependencies@));
        let mut i: usize = 0;
        assert(names.take(0) =~= Seq::<Seq<char>>::empty());
        while i < dependencies.len()
            invariant
                i <= dependencies.len(),
                dependencies.len() <= GRAPH_CAPACITY,
                names == record_names(records(dependencies@)),
                graph_nodes(graph) == names.take(i as int),
                graph_edges(graph) == Seq::<(int, int)>::empty(),
                node_indices.wf(),
                node_indices.names() == distinct_names(names.take(i as int)),
                forall|k: int|
                    0 <= k < node_indices.values().len() ==> (#[trigger] node_indices.values()[k])
                        < i && names[node_indices.values()[k] as int] == node_indices.names()[k],
            decreases dependencies.len() - i,
        {
            proof {
                assert(names.take(i + 1) =~= names.take(i as int).push(names[i as int]));
                assert(names.take(i + 1).drop_last() =~= names.take(i as int));
                assert(names[i as int] == dependencies@[i as int].name@);
            }
            let ghost before = node_indices;
            let node_idx = graph_add_node(&mut graph, dependencies[i].name.clone());
            node_indices.insert(dependencies[i].name.clone(), node_idx);
            i += 1;
        }
        assert(names.take(dependencies@.len() as int) =~= names);
        DependencyGraph { graph, node_indices }
    }

    /// The number of nodes.
    pub fn node_count(&self) -> (n: usize)
        ensures
            n == self.nodes().len(),
    {
        graph_node_count(&self.graph)
    }

    /// The number of edges.
    pub fn edge_count(&self) -> (n: usize)
        ensures
            n == self.edges().len(),
    {
        graph_edge_count(&self.graph)
    }

    /// Adds an edge that says that `dependent` depends on `dependency`.
    /// Fails, and changes nothing, where one of the two is not a node.
    pub fn add_dependency(&mut self, dependent: &str, dependency: &str) -> (r: Result<
        (),
        GraphError,
    >)
        requires
            old(self).wf(),
            old(self).edges().len() < GRAPH_CAPACITY,
        ensures
            final(self).wf(),
            final(self).nodes() == old(self).nodes(),
            final(self).node_indices == old(self).node_indices,
            match r {
                Ok(_) => old(self).index_of(dependent@) is Some && old(self).index_of(dependency@)
                    is Some && final(self).edges() == old(self).edges().push(
                    (old(self).index_of(dependent@)->0, old(self).index_of(dependency@)->0),
                ),
                Err(GraphError::DependentNotFound(n)) => old(self).index_of(dependent@) is None
                    && n@ == dependent@ && final(self).edges() == old(self).edges(),
                Err(GraphError::DependencyNotFound(n)) => old(self).index_of(dependent@) is Some
                    && old(self).index_of(dependency@) is None && n@ == dependency@
                    && final(self).edges() == old(self).edges(),
            },
    {
        let dependent_idx: usize = match self.node_indices.position(dependent) {
            Some(k) => *self.node_indices.value_at(k),
            None => {
                return Err(GraphError::DependentNotFound(String::from_str(dependent)));
            },
        };
        let dependency_idx: usize = match self.node_indices.position(dependency) {
            Some(k) => *self.node_indices.value_at(k),
            None => {
                return Err(GraphError::DependencyNotFound(String::from_str(dependency)));
            },
        };
        let ghost before = self.edges();
        graph_add_edge(&mut self.graph, dependent_idx, dependency_idx);
        proof {
            assert forall|k: int| 0 <= k < self.edges().len() implies 0 <= (
            #[trigger] self.edges()[k]).0 < self.nodes().len() && 0 <= self.edges()[k].1
                < self.nodes().len() by {
                if k < before.len() {
                    assert(self.edges()[k] == before[k]);
                }
            }
        }
        Ok(())
    }

    /// Whether a directed path leads from the node of `from` to the node of
    /// `to`: whether `from` depends on `to`, directly or through others.
    /// A dependency that is a node reaches itself.
    pub fn has_path(&self, from: &str, to: &str) -> (r: bool)
        requires
            self.wf(),
        ensures
            r == self.connects(from@, to@),
    {
        let a: usize = match self.node_indices.position(from) {
            Some(k) => *self.node_indices.value_at(k),
            None => {
                return false;
            },
        };
        let b: usize = match self.node_indices.position(to) {
            Some(k) => *self.node_indices.value_at(k),
            None => {
                return false;
            },
        };
        graph_has_path(&self.graph, a, b)
    }

    /// The text of the graph in the DOT language.
    pub fn to_dot(&self) -> (s: String)
        ensures
            s@ == dot_text(self.nodes(), self.edges()),
    {
        graph_dot(&self.graph)
    }

    /// The circular-dependency groups among the given strongly connected
    /// components: the names of each component of more than one node, the
    /// components and the nodes within each in the order given.
    pub fn groups_of(&self, sccs: &Vec<Vec<usize>>) -> (groups: Vec<Vec<String>>)
        requires
            forall|i: int, j: int|
                0 <= i < sccs@.len() && 0 <= j < sccs@[i]@.len() ==> (#[trigger] sccs@[i]@[j])
                    < self.nodes().len(),
        ensures
            groups_view(groups@) == circular_groups(self.nodes(), component_view(sccs@)),
    {
        let mut groups: Vec<Vec<String>> = Vec::new();
        let ghost comps = component_view(sccs@);
        let ghost nodes = self.nodes();
        let mut i: usize = 0;
        assert(comps.take(0) =~= Seq::<Seq<int>>::empty());
        assert(groups_view(groups@) =~= Seq::<Seq<Seq<char>>>::empty());
        while i < sccs.len()
            invariant
                i <= sccs.len(),
                comps == component_view(sccs@),
                nodes == self.nodes(),
                forall|a: int, b: int|
                    0 <= a < sccs@.len() && 0 <= b < sccs@[a]@.len() ==> (#[trigger] sccs@[a]@[b])
                        < nodes.len(),
                groups_view(groups@) == circular_groups(nodes, comps.take(i as int)),
            decreases sccs.len() - i,
        {
            let scc = &sccs[i];
            proof {
                assert(comps.take(i + 1).drop_last() =~= comps.take(i as int));
                assert(comps.take(i + 1).last() == comps[i as int]);
                assert(comps[i as int].len() == scc@.len());
            }
            if scc.len() > 1 {
                let mut names: Vec<String> = Vec::new();
                let mut j: usize = 0;
                assert(texts(names@) =~= group_names(nodes, comps[i as int]).take(0));
                while j < scc.len()
                    invariant
                        j <= scc.len(),
                        nodes == self.nodes(),
                        comps[i as int] == scc@.map_values(|x: usize| x as int),
                        forall|b: int| 0 <= b < scc@.len() ==> (#[trigger] scc@[b]) < nodes.len(),
                        texts(names@) == group_names(nodes, comps[i as int]).take(j as int),
                    decreases scc.len() - j,
                {
                    let ghost before = texts(names@);
                    let name = graph_node_name(&self.graph, scc[j]);
                    names.push(name);
                    proof {
                        assert(texts(names@) =~= before.push(name@));
                        assert(group_names(nodes, comps[i as int]).take(j + 1) =~= group_names(
                            nodes,
                            comps[i as int],
                        ).take(j as int).push(nodes[scc@[j as int] as int]));
                    }
                    j += 1;
                }
                proof {
                    assert(group_names(nodes, comps[i as int]).take(scc@.len() as int)
                        =~= group_names(nodes, comps[i as int]));
                }
                let ghost before = groups_view(groups@);
                groups.push(names);
                assert(groups_view(groups@) =~= before.push(texts(names@)));
            }
            i += 1;
        }
        assert(comps.take(sccs@.len() as int) =~= comps);
        groups
    }

    /// The circular dependencies: every strongly connected component of more
    /// than one node, as the names of its nodes. The components come in
    /// reverse topological order, the names within one in the order in which
    /// the decomposition found them.
    pub fn find_circular_dependencies(&self) -> (groups: Vec<Vec<String>>)
        ensures
            groups_view(groups@) == circular_groups(self.nodes(), component_order(self.graph)),
            is_scc_decomposition(component_order(self.graph), self.nodes().len(), self.edges()),
    {
        let sccs = graph_strong_components(&self.graph);
        proof {
            let comps = component_view(sccs@);
            assert forall|i: int, j: int|
                0 <= i < sccs@.len() && 0 <= j < sccs@[i]@.len() implies (#[trigger] sccs@[i]@[j])
                < self.nodes().len() by {
                assert(in_component(comps, i, j));
                assert(comps[i][j] == sccs@[i]@[j] as int);
                lemma_decomposition(
                    comps,
                    self.nodes().len(),
                    self.edges(),
                    i,
                    j,
                    i,
                    j,
                );
            }
        }
        self.groups_of(&sccs)
    }

    /// The names, among the first `n` of the index map, of the other nodes
    /// that the node at position `at` of the index map reaches.
    pub open spec fn reached_from(&self, at: int, n: nat) -> Seq<Seq<char>>
        decreases n,
    {
        if n == 0 || n > self.node_indices.names().len() {
            Seq::empty()
        } else {
            let rest = self.reached_from(at, (n - 1) as nat);
            let from = self.node_indices.values()[at];
            let to = self.node_indices.values()[n - 1];
            if to != from && reaches(self.edges(), from as int, to as int) {
                rest.push(self.node_indices.names()[n - 1])
            } else {
                rest
            }
        }
    }

    /// For each dependency, the other dependencies that it depends on,
    /// directly or through others, in the order of the index map.
    pub fn calculate_transitive_dependencies(&self) -> (result: NameMap<Vec<String>>)
        requires
            self.wf(),
        ensures
            result.wf(),
            result.names() == self.node_indices.names(),
            forall|i: int|
                0 <= i < result.values().len() ==> texts((#[trigger] result.values()[i])@)
                    == self.reached_from(i, self.node_indices.names().len()),
    {
        let mut result: NameMap<Vec<String>> = NameMap::new();
        let n: usize = self.node_indices.len();
        let ghost names = self.node_indices.names();
        let mut i: usize = 0;
        assert(names.take(0) =~= Seq::<Seq<char>>::empty());
        while i < n
            invariant
                i <= n,
                n == self.node_indices.names().len(),
                names == self.node_indices.names(),
                self.wf(),
                result.wf(),
                result.names() == names.take(i as int),
                forall|k: int|
                    0 <= k < i ==> texts((#[trigger] result.values()[k])@) == self.reached_from(
                        k,
                        n as nat,
                    ),
            decreases n - i,
        {
            let node_idx: usize = *self.node_indices.value_at(i);
            let mut deps: Vec<String> = Vec::new();
            let mut j: usize = 0;
            assert(texts(deps@) =~= Seq::<Seq<char>>::empty());
            while j < n
                invariant
                    j <= n,
                    i < n,
                    n == self.node_indices.names().len(),
                    self.wf(),
                    node_idx == self.node_indices.values()[i as int],
                    texts(deps@) == self.reached_from(i as int, j as nat),
                decreases n - j,
            {
                let idx: usize = *self.node_indices.value_at(j);
                if idx != node_idx && graph_has_path(&self.graph, node_idx, idx) {
                    let ghost before = texts(deps@);
                    deps.push(self.node_indices.key_at(j).clone());
                    assert(texts(deps@) =~= before.push(self.node_indices.names()[j as int]));
                }
                j += 1;
            }
            let ghost before = result;
            proof {
                assert(!result.has(names[i as int])) by {
                    if names.take(i as int).contains(names[i as int]) {
                        let k = choose|k: int|
                            0 <= k < names.take(i as int).len() && names.take(i as int)[k]
                                == names[i as int];
                        assert(names[k] == names[i as int]);
                    }
                }
                assert(names.take(i + 1) =~= names.take(i as int).push(names[i as int]));
            }
            result.insert(self.node_indices.key_at(i).clone(), deps);
            proof {
                assert forall|k: int| 0 <= k < i + 1 implies texts((#[trigger] result.values()[k])@)
                    == self.reached_from(k, n as nat) by {
                    if k < i {
                        assert(result.values()[k] == before.values()[k]);
                    }
                }
            }
            i += 1;
        }
        assert(names.take(n as int) =~= names);
        result
    }

    /// The edges after the first `n` pairs of lock data were added: a pair
    /// of names adds an edge from the node of the first to the node of the
    /// second where both are nodes, and nothing where one is not.
    pub open spec fn linked(&self, pairs: Seq<(Seq<char>, Seq<char>)>, n: nat) -> Seq<(int, int)>
        decreases n,
    {
        if n == 0 || n > pairs.len() {
            Seq::empty()
        } else {
            let rest = self.linked(pairs, (n - 1) as nat);
            let pair = pairs[n - 1];
            if self.index_of(pair.0) is Some && self.index_of(pair.1) is Some {
                rest.push((self.index_of(pair.0)->0, self.index_of(pair.1)->0))
            } else {
                rest
            }
        }
    }

    /// The graph of the dependencies with the relationships that the lock
    /// data gives: each pair names a dependent and what it depends on. Pairs
    /// that name a package that is not a declared dependency are left out.
    pub fn from_cargo_lock(lock: &Vec<(String, String)>, dependencies: &Vec<CargoDependency>) -> (g:
        Self)
        requires
            dependencies.len() <= GRAPH_CAPACITY,
            lock.len() <= GRAPH_CAPACITY,
        ensures
            g.wf(),
            g.nodes() == record_names(records(dependencies@)),
            g.edges() == g.linked(pair_names(lock@), lock@.len()),
    {
        let mut graph = Self::new(dependencies);
        let ghost pairs = pair_names(lock@);
        let ghost fresh = graph;
        let mut i: usize = 0;
        while i < lock.len()
            invariant
                i <= lock.len(),
                lock.len() <= GRAPH_CAPACITY,
                pairs == pair_names(lock@),
                graph.wf(),
                graph.nodes() == fresh.nodes(),
                graph.node_indices == fresh.node_indices,
                graph.edges().len() <= i,
                graph.edges() == graph.linked(pairs, i as nat),
            decreases lock.len() - i,
        {
            let ghost before = graph;
            let _ = graph.add_dependency(lock[i].0.as_str(), lock[i].1.as_str());
            proof {
                assert(pairs[i as int] == (lock@[i as int].0@, lock@[i as int].1@));
                lemma_linked_same(before, graph, pairs, i as nat);
            }
            i += 1;
        }
        graph
    }
}

/// The names of the pairs of lock data.
pub open spec fn pair_names(lock: Seq<(String, String)>) -> Seq<(Seq<char>, Seq<char>)> {
    lock.map_values(|p: (String, String)| (p.0@, p.1@))
}

/// Graphs with the same index map link lock data alike.
pub proof fn lemma_linked_same(
    a: DependencyGraph,
    b: DependencyGraph,
    pairs: Seq<(Seq<char>, Seq<char>)>,
    n: nat,
)
    requires
        a.node_indices == b.node_indices,
    ensures
        a.linked(pairs, n) == b.linked(pairs, n),
    decreases n,
{
    if n > 0 && n <= pairs.len() {
        lemma_linked_same(a, b, pairs, (n - 1) as nat);
    }
}

/// Every edge joins two of the `nodes` nodes.
pub open spec fn edges_in_range(nodes: nat, edges: Seq<(int, int)>) -> bool {
    forall|k: int|
        0 <= k < edges.len() ==> 0 <= (#[trigger] edges[k]).0 < nodes && 0 <= edges[k].1 < nodes
}

/// The edges as pairs of names, dependent first.
pub open spec fn named_edges(nodes: Seq<Seq<char>>, edges: Seq<(int, int)>) -> Set<
    (Seq<char>, Seq<char>),
> {
    Set::new(
        |e: (Seq<char>, Seq<char>)|
            exists|k: int|
                0 <= k < edges.len() && e == (nodes[(#[trigger] edges[k]).0], nodes[edges[k].1]),
    )
}

/// The groups as sets of names.
pub open spec fn group_sets(groups: Seq<Seq<Seq<char>>>) -> Set<Set<Seq<char>>> {
    Set::new(
        |s: Set<Seq<char>>| exists|i: int| 0 <= i < groups.len() && (#[trigger] groups[i]).to_set() == s,
    )
}

/// The circular groups are the names of the components of more than one
/// node.
pub proof fn lemma_circular_groups(nodes: Seq<Seq<char>>, comps: Seq<Seq<int>>)
    ensures
        forall|i: int|
            0 <= i < comps.len() && (#[trigger] comps[i]).len() > 1 ==> circular_groups(
                nodes,
                comps,
            ).contains(group_names(nodes, comps[i])),
        forall|g: int|
            0 <= g < circular_groups(nodes, comps).len() ==> exists|i: int|
                0 <= i < comps.len() && (#[trigger] comps[i]).len() > 1 && group_names(
                    nodes,
                    comps[i],
                ) == #[trigger] circular_groups(nodes, comps)[g],
    decreases comps.len(),
{
    if comps.len() > 0 {
        let rest = comps.drop_last();
        let all = circular_groups(nodes, comps);
        let before = circular_groups(nodes, rest);
        lemma_circular_groups(nodes, rest);
        assert forall|i: int| 0 <= i < comps.len() && (#[trigger] comps[i]).len() > 1 implies all.contains(
            group_names(nodes, comps[i]),
        ) by {
            if i < comps.len() - 1 {
                assert(rest[i] == comps[i]);
                assert(before.contains(group_names(nodes, rest[i])));
                let g = choose|g: int|
                    0 <= g < before.len() && before[g] == group_names(nodes, rest[i]);
                assert(all[g] == group_names(nodes, comps[i]));
            } else {
                assert(all[all.len() - 1] == group_names(nodes, comps[i]));
            }
        }
        assert forall|g: int| 0 <= g < all.len() implies exists|i: int|
            0 <= i < comps.len() && (#[trigger] comps[i]).len() > 1 && group_names(nodes, comps[i])
                == #[trigger] all[g] by {
            if g < before.len() {
                assert(all[g] == before[g]);
                let i = choose|i: int|
                    0 <= i < rest.len() && (#[trigger] rest[i]).len() > 1 && group_names(
                        nodes,
                        rest[i],
                    ) == before[g];
                assert(comps[i] == rest[i]);
            } else {
                assert(comps[comps.len() - 1].len() > 1);
                assert(group_names(nodes, comps[comps.len() - 1]) == all[g]);
            }
        }
    }
}

/// Where every name of graph `a` is a name of graph `b` and every named edge
/// of `a` is one of `b`, a path in `a` is a path between the nodes of those
/// names in `b`.
pub proof fn lemma_reach_transfers(
    nodes_a: Seq<Seq<char>>,
    edges_a: Seq<(int, int)>,
    nodes_b: Seq<Seq<char>>,
    edges_b: Seq<(int, int)>,
    x: int,
    y: int,
)
    requires
        nodes_b.no_duplicates(),
        forall|n: Seq<char>| nodes_a.contains(n) ==> nodes_b.contains(n),
        edges_in_range(nodes_a.len(), edges_a),
        edges_in_range(nodes_b.len(), edges_b),
        forall|e: (Seq<char>, Seq<char>)|
            named_edges(nodes_a, edges_a).contains(e) ==> named_edges(nodes_b, edges_b).contains(e),
        0 <= x < nodes_a.len(),
        0 <= y < nodes_a.len(),
        reaches(edges_a, x, y),
    ensures
        reaches(edges_b, nodes_b.index_of(nodes_a[x]), nodes_b.index_of(nodes_a[y])),
{
    let p = choose|p: Seq<int>| is_walk(edges_a, p) && #[trigger] p.first() == x && p.last() == y;
    let q = Seq::new(p.len(), |i: int| nodes_b.index_of(nodes_a[p[i]]));
    assert forall|i: int| 0 <= i < q.len() - 1 implies #[trigger] walk_step(edges_b, q, i) by {
        assert(walk_step(edges_a, p, i));
        let k = choose|k: int| 0 <= k < edges_a.len() && edges_a[k] == (p[i], p[i + 1]);
        let e = (nodes_a[p[i]], nodes_a[p[i + 1]]);
        assert(e == (nodes_a[edges_a[k].0], nodes_a[edges_a[k].1]));
        assert(named_edges(nodes_a, edges_a).contains(e));
        assert(named_edges(nodes_b, edges_b).contains(e));
        let m = choose|m: int|
            0 <= m < edges_b.len() && e == (nodes_b[(#[trigger] edges_b[m]).0], nodes_b[edges_b[m].1]);
        lemma_index_of_distinct(nodes_b, edges_b[m].0);
        lemma_index_of_distinct(nodes_b, edges_b[m].1);
        assert(edges_b[m] == (q[i], q[i + 1]));
    }
    assert(is_walk(edges_b, q));
    assert(q.first() == nodes_b.index_of(nodes_a[x]));
    assert(q.last() == nodes_b.index_of(nodes_a[y]));
}

/// In a sequence without duplicates each element is found at its position.
pub proof fn lemma_index_of_distinct(s: Seq<Seq<char>>, i: int)
    requires
        s.no_duplicates(),
        0 <= i < s.len(),
    ensures
        s.index_of(s[i]) == i,
        s.contains(s[i]),
{
    assert(s.contains(s[i]));
    let j = s.index_of(s[i]);
    assert(0 <= j < s.len() && s[j] == s[i]);
}

/// The element `n` of `s` is found at a position that holds it.
pub proof fn lemma_index_of_found(s: Seq<Seq<char>>, n: Seq<char>)
    requires
        s.contains(n),
    ensures
        0 <= s.index_of(n) < s.len(),
        s[s.index_of(n)] == n,
{
    let j = s.index_of(n);
    assert(0 <= j < s.len() && s[j] == n);
}

/// What two graphs over the same names with the same named edges have in
/// common.
pub open spec fn same_relationships(
    nodes_a: Seq<Seq<char>>,
    edges_a: Seq<(int, int)>,
    nodes_b: Seq<Seq<char>>,
    edges_b: Seq<(int, int)>,
) -> bool {
    &&& nodes_a.no_duplicates()
    &&& nodes_b.no_duplicates()
    &&& forall|n: Seq<char>| nodes_a.contains(n) <==> nodes_b.contains(n)
    &&& edges_in_range(nodes_a.len(), edges_a)
    &&& edges_in_range(nodes_b.len(), edges_b)
    &&& forall|e: (Seq<char>, Seq<char>)|
        named_edges(nodes_a, edges_a).contains(e) <==> named_edges(nodes_b, edges_b).contains(e)
}

/// A component of more than one node of graph `a` has a twin in graph `b`: a
/// component of more than one node with the same names.
pub proof fn lemma_component_twin(
    nodes_a: Seq<Seq<char>>,
    edges_a: Seq<(int, int)>,
    comps_a: Seq<Seq<int>>,
    nodes_b: Seq<Seq<char>>,
    edges_b: Seq<(int, int)>,
    comps_b: Seq<Seq<int>>,
    i: int,
) -> (k: int)
    requires
        same_relationships(nodes_a, edges_a, nodes_b, edges_b),
        is_scc_decomposition(comps_a, nodes_a.len(), edges_a),
        is_scc_decomposition(comps_b, nodes_b.len(), edges_b),
        0 <= i < comps_a.len(),
        comps_a[i].len() > 1,
    ensures
        0 <= k < comps_b.len(),
        comps_b[k].len() > 1,
        group_names(nodes_b, comps_b[k]).to_set() == group_names(nodes_a, comps_a[i]).to_set(),
{
    let x = comps_a[i][0];
    assert(in_component(comps_a, i, 0));
    lemma_decomposition(comps_a, nodes_a.len(), edges_a, i, 0, i, 0);
    assert(nodes_a.contains(nodes_a[x]));
    let fx = nodes_b.index_of(nodes_a[x]);
    lemma_index_of_found(nodes_b, nodes_a[x]);
    let (k, l) = lemma_decomposition_covers(comps_b, nodes_b.len(), edges_b, fx);
    let names_a = group_names(nodes_a, comps_a[i]);
    let names_b = group_names(nodes_b, comps_b[k]);
    assert forall|n: Seq<char>| names_a.contains(n) implies names_b.contains(n) by {
        let j = choose|j: int| 0 <= j < names_a.len() && names_a[j] == n;
        let u = comps_a[i][j];
        assert(in_component(comps_a, i, j));
        lemma_decomposition(comps_a, nodes_a.len(), edges_a, i, 0, i, j);
        assert(nodes_a.contains(nodes_a[u]));
        let fu = nodes_b.index_of(nodes_a[u]);
        lemma_index_of_found(nodes_b, nodes_a[u]);
        lemma_reach_transfers(nodes_a, edges_a, nodes_b, edges_b, x, u);
        lemma_reach_transfers(nodes_a, edges_a, nodes_b, edges_b, u, x);
        let (k2, l2) = lemma_decomposition_covers(comps_b, nodes_b.len(), edges_b, fu);
        lemma_decomposition(comps_b, nodes_b.len(), edges_b, k, l, k2, l2);
        assert(k == k2);
        assert(names_b[l2] == n);
    }
    assert forall|n: Seq<char>| names_b.contains(n) implies names_a.contains(n) by {
        let l2 = choose|l2: int| 0 <= l2 < names_b.len() && names_b[l2] == n;
        let v = comps_b[k][l2];
        assert(in_component(comps_b, k, l2));
        lemma_decomposition(comps_b, nodes_b.len(), edges_b, k, l, k, l2);
        assert(nodes_b.contains(nodes_b[v]));
        assert(nodes_a.contains(nodes_b[v]));
        let gv = nodes_a.index_of(nodes_b[v]);
        lemma_index_of_found(nodes_a, nodes_b[v]);
        lemma_index_of_distinct(nodes_a, x);
        lemma_reach_transfers(nodes_b, edges_b, nodes_a, edges_a, fx, v);
        lemma_reach_transfers(nodes_b, edges_b, nodes_a, edges_a, v, fx);
        assert(nodes_a.index_of(nodes_b[fx]) == x);
        let (i2, j2) = lemma_decomposition_covers(comps_a, nodes_a.len(), edges_a, gv);
        lemma_decomposition(comps_a, nodes_a.len(), edges_a, i, 0, i2, j2);
        assert(i == i2);
        assert(names_a[j2] == n);
    }
    assert(names_b.to_set() =~= names_a.to_set());
    if comps_b[k].len() <= 1 {
        let u = comps_a[i][1];
        assert(in_component(comps_a, i, 1));
        lemma_decomposition(comps_a, nodes_a.len(), edges_a, i, 0, i, 1);
        assert(x != u);
        assert(names_a[0] == nodes_a[x]);
        assert(names_a[1] == nodes_a[u]);
        assert(names_a.contains(nodes_a[x]));
        assert(names_a.contains(nodes_a[u]));
        assert(names_b.contains(nodes_a[x]));
        assert(names_b.contains(nodes_a[u]));
        let l1 = choose|l1: int| 0 <= l1 < names_b.len() && names_b[l1] == nodes_a[x];
        let l2 = choose|l2: int| 0 <= l2 < names_b.len() && names_b[l2] == nodes_a[u];
        assert(l1 == 0 && l2 == 0);
        assert(nodes_a[x] == nodes_a[u]);
        assert(false);
    }
    k
}

/// Cycle detection does not depend on the order of the nodes: two graphs
/// with the same dependency names, in any order, and the same relationships
/// between them report the same circular groups as sets of names.
pub proof fn lemma_cycles_ignore_node_order(
    nodes_a: Seq<Seq<char>>,
    edges_a: Seq<(int, int)>,
    comps_a: Seq<Seq<int>>,
    nodes_b: Seq<Seq<char>>,
    edges_b: Seq<(int, int)>,
    comps_b: Seq<Seq<int>>,
)
    requires
        same_relationships(nodes_a, edges_a, nodes_b, edges_b),
        is_scc_decomposition(comps_a, nodes_a.len(), edges_a),
        is_scc_decomposition(comps_b, nodes_b.len(), edges_b),
    ensures
        group_sets(circular_groups(nodes_a, comps_a)) == group_sets(
            circular_groups(nodes_b, comps_b),
        ),
{
    let groups_a = circular_groups(nodes_a, comps_a);
    let groups_b = circular_groups(nodes_b, comps_b);
    lemma_circular_groups(nodes_a, comps_a);
    lemma_circular_groups(nodes_b, comps_b);
    assert forall|s: Set<Seq<char>>| group_sets(groups_a).contains(s) implies group_sets(
        groups_b,
    ).contains(s) by {
        let g = choose|g: int| 0 <= g < groups_a.len() && (#[trigger] groups_a[g]).to_set() == s;
        let i = choose|i: int|
            0 <= i < comps_a.len() && (#[trigger] comps_a[i]).len() > 1 && group_names(
                nodes_a,
                comps_a[i],
            ) == groups_a[g];
        let k = lemma_component_twin(nodes_a, edges_a, comps_a, nodes_b, edges_b, comps_b, i);
        assert(groups_b.contains(group_names(nodes_b, comps_b[k])));
        let h = choose|h: int|
            0 <= h < groups_b.len() && groups_b[h] == group_names(nodes_b, comps_b[k]);
        assert(groups_b[h].to_set() == s);
    }
    assert forall|s: Set<Seq<char>>| group_sets(groups_b).contains(s) implies group_sets(
        groups_a,
    ).contains(s) by {
        let g = choose|g: int| 0 <= g < groups_b.len() && (#[trigger] groups_b[g]).to_set() == s;
        let i = choose|i: int|
            0 <= i < comps_b.len() && (#[trigger] comps_b[i]).len() > 1 && group_names(
                nodes_b,
                comps_b[i],
            ) == groups_b[g];
        let k = lemma_component_twin(nodes_b, edges_b, comps_b, nodes_a, edges_a, comps_a, i);
        assert(groups_a.contains(group_names(nodes_a, comps_a[k])));
        let h = choose|h: int|
            0 <= h < groups_a.len() && groups_a[h] == group_names(nodes_a, comps_a[k]);
        assert(groups_a[h].to_set() == s);
    }
    assert(group_sets(groups_a) =~= group_sets(groups_b));
}

/// A graph without edges has no circular dependency.
pub proof fn lemma_no_edges_no_cycles(nodes: Seq<Seq<char>>, comps: Seq<Seq<int>>)
    requires
        is_scc_decomposition(comps, nodes.len(), Seq::<(int, int)>::empty()),
    ensures
        circular_groups(nodes, comps) == Seq::<Seq<Seq<char>>>::empty(),
{
    let edges = Seq::<(int, int)>::empty();
    lemma_circular_groups(nodes, comps);
    if circular_groups(nodes, comps).len() > 0 {
        let i = choose|i: int|
            0 <= i < comps.len() && (#[trigger] comps[i]).len() > 1 && group_names(nodes, comps[i])
                == circular_groups(nodes, comps)[0];
        assert(in_component(comps, i, 0));
        assert(in_component(comps, i, 1));
        lemma_decomposition(comps, nodes.len(), edges, i, 0, i, 1);
        let p = choose|p: Seq<int>|
            is_walk(edges, p) && #[trigger] p.first() == comps[i][0] && p.last() == comps[i][1];
        if p.len() > 1 {
            assert(walk_step(edges, p, 0));
        }
        assert(comps[i][0] == comps[i][1]);
        assert(false);
    }
    assert(circular_groups(nodes, comps) =~= Seq::<Seq<Seq<char>>>::empty());
}

} // verus!
