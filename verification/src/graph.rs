//! Computation graph
//!
//! A directed graph whose nodes stand for tensors and whose edges record
//! which nodes an operation reads. Building the graph computes an execution
//! order in which every node comes after its sources (Kahn's algorithm).

use vstd::prelude::*;
use std::collections::{HashSet, VecDeque};
use crate::entries::{entries_view, find_entry, lemma_find_key, lookup};
use crate::tensor::{OpType, Tensor};
use crate::text::{decimal, push_decimal};
use crate::topo::{
    has_exec_order, hits, is_exec_order, kahn_from, kahn_order, lemma_hits_bound, lemma_hits_full,
    lemma_hits_push, lemma_missing_entry, placed_after_sources, released, sourceless,
};

verus! {

broadcast use {vstd::std_specs::hash::group_hash_axioms, vstd::seq_lib::group_seq_properties};

/// Maximum number of nodes in a graph
pub const GGML_MAX_NODES: usize = 16384;

/// Maximum number of leaf nodes (inputs/parameters)
pub const GGML_MAX_LEAFS: usize = 16384;

/// Graph errors
#[derive(Debug)]
pub enum GraphError {
    GraphFull(usize),
    CycleDetected,
    NodeNotFound,
    InvalidStructure(String),
}

/// A graph error with its message as text.
pub enum GraphErrorView {
    GraphFull(usize),
    CycleDetected,
    NodeNotFound,
    InvalidStructure(Seq<char>),
}

impl View for GraphError {
    type V = GraphErrorView;

    open spec fn view(&self) -> GraphErrorView {
        match self {
            GraphError::GraphFull(n) => GraphErrorView::GraphFull(*n),
            GraphError::CycleDetected => GraphErrorView::CycleDetected,
            GraphError::NodeNotFound => GraphErrorView::NodeNotFound,
            GraphError::InvalidStructure(m) => GraphErrorView::InvalidStructure(m@),
        }
    }
}

pub open spec fn graph_result<T>(r: Result<T, GraphError>) -> Result<T, GraphErrorView> {
    match r {
        Ok(v) => Ok(v),
        Err(e) => Err(e@),
    }
}

/// Graph node representing a tensor in the computation graph
#[derive(Debug, Clone)]
pub struct GraphNode {
    /// Index in the graph
    pub index: usize,
    /// Operation type
    pub op: OpType,
    /// Indices of source nodes (inputs to this operation)
    pub sources: Vec<usize>,
    /// Whether this is a leaf node (input/parameter)
    pub is_leaf: bool,
    /// Whether this node needs gradient computation
    pub requires_grad: bool,
    /// Gradient node index (if computed)
    pub grad_index: Option<usize>,
}

pub struct NodeView {
    pub index: usize,
    pub op: OpType,
    pub sources: Seq<usize>,
    pub is_leaf: bool,
    pub requires_grad: bool,
    pub grad_index: Option<usize>,
}

impl View for GraphNode {
    type V = NodeView;

    open spec fn view(&self) -> NodeView {
        NodeView {
            index: self.index,
            op: self.op,
            sources: self.sources@,
            is_leaf: self.is_leaf,
            requires_grad: self.requires_grad,
            grad_index: self.grad_index,
        }
    }
}

/// Computation graph
///
/// A directed acyclic graph (DAG) representing a computation.
/// Nodes are tensors, edges are operations.
pub struct ComputeGraph {
    /// All nodes in the graph
    nodes: Vec<GraphNode>,
    /// Leaf nodes (inputs and parameters)
    leafs: Vec<usize>,
    /// Mapping from tensor identity to node index
    tensor_map: Vec<(String, usize)>,
    /// Execution order (topologically sorted)
    execution_order: Vec<usize>,
    /// Whether the graph has been built
    built: bool,
    /// Whether gradients are enabled
    grad_enabled: bool,
}

/// The abstract state of a graph.
pub struct GraphView {
    pub nodes: Seq<NodeView>,
    pub leafs: Seq<usize>,
    /// Node index of each tensor added so far, under the text of its address
    pub ids: Seq<(Seq<char>, usize)>,
    pub order: Seq<usize>,
    pub built: bool,
    pub grad_enabled: bool,
}

impl GraphView {
    /// The source list of every node.
    pub open spec fn srcs(self) -> Seq<Seq<usize>> {
        self.nodes.map_values(|n: NodeView| n.sources)
    }

    pub open spec fn wf(self) -> bool {
        &&& self.nodes.len() <= GGML_MAX_NODES
        &&& self.leafs.len() <= self.nodes.len()
        &&& forall|i: int| 0 <= i < self.nodes.len() ==> (#[trigger] self.nodes[i]).index == i
        &&& forall|k: int| 0 <= k < self.leafs.len() ==> (#[trigger] self.leafs[k]) < self.nodes.len()
        &&& forall|k: int| 0 <= k < self.ids.len() ==> (#[trigger] self.ids[k]).1 < self.nodes.len()
        &&& self.order.no_duplicates()
        &&& forall|k: int| 0 <= k < self.order.len() ==> (#[trigger] self.order[k]) < self.nodes.len()
        &&& self.built ==> is_exec_order(self.srcs(), self.order)
    }

    pub open spec fn empty(grad_enabled: bool) -> GraphView {
        GraphView {
            nodes: Seq::empty(),
            leafs: Seq::empty(),
            ids: Seq::empty(),
            order: Seq::empty(),
            built: false,
            grad_enabled,
        }
    }

    /// Adding the tensor whose address reads `key`, with operation `op`: a
    /// tensor at an address already added keeps the node it has.
    pub open spec fn add_node(self, key: Seq<char>, op: OpType, is_leaf: bool) -> (
        GraphView,
        Result<usize, GraphErrorView>,
    ) {
        if self.nodes.len() >= GGML_MAX_NODES {
            (self, Err(GraphErrorView::GraphFull(GGML_MAX_NODES)))
        } else if lookup(self.ids, key) is Some {
            (self, Ok(lookup(self.ids, key)->Some_0))
        } else {
            let idx = self.nodes.len() as usize;
            (
                GraphView {
                    nodes: self.nodes.push(
                        NodeView {
                            index: idx,
                            op,
                            sources: Seq::empty(),
                            is_leaf,
                            requires_grad: self.grad_enabled,
                            grad_index: None,
                        },
                    ),
                    leafs: if is_leaf {
                        self.leafs.push(idx)
                    } else {
                        self.leafs
                    },
                    ids: self.ids.push((key, idx)),
                    built: false,
                    ..self
                },
                Ok(idx),
            )
        }
    }

    /// Adding an edge from node `from` into node `to`.
    pub open spec fn add_edge(self, from: usize, to: usize) -> (
        GraphView,
        Result<(), GraphErrorView>,
    ) {
        if to >= self.nodes.len() {
            (self, Err(GraphErrorView::NodeNotFound))
        } else {
            let n = self.nodes[to as int];
            (
                GraphView {
                    nodes: self.nodes.update(
                        to as int,
                        NodeView { sources: n.sources.push(from), ..n },
                    ),
                    built: false,
                    ..self
                },
                Ok(()),
            )
        }
    }
}

/// The address of `t` as text, as `{:p}` formats a reference. Where a
/// tensor lies in memory is known only when the program runs, so nothing is
/// stated of the text.
#[verifier::external_body]
fn address_text(t: &Tensor) -> (r: String) {
    format!("{:p}", t)
}

impl View for ComputeGraph {
    type V = GraphView;

    closed spec fn view(&self) -> GraphView {
        GraphView {
            nodes: self.nodes@.map_values(|n: GraphNode| n@),
            leafs: self.leafs@,
            ids: entries_view(self.tensor_map@),
            order: self.execution_order@,
            built: self.built,
            grad_enabled: self.grad_enabled,
        }
    }
}

/// `v` contains `x`.
fn contains_index(v: &Vec<usize>, x: usize) -> (r: bool)
    ensures
        r == v@.contains(x),
{
    let mut i: usize = 0;
    while i < v.len()
        invariant
            i <= v@.len(),
            forall|j: int| 0 <= j < i ==> v@[j] != x,
        decreases v@.len() - i,
    {
        if v[i] == x {
            assert(v@[i as int] == x);
            return true;
        }
        i = i + 1;
    }
    false
}

/// A list of distinct indices below `n` has at most `n` entries.
pub proof fn lemma_distinct_below_len(s: Seq<usize>, n: usize)
    requires
        s.no_duplicates(),
        forall|k: int| 0 <= k < s.len() ==> (#[trigger] s[k]) < n,
    ensures
        s.len() <= n,
{
    broadcast use vstd::set::group_set_axioms;

    let ints = s.map_values(|x: usize| x as int);
    assert(ints.no_duplicates()) by {
        assert forall|i: int, j: int| 0 <= i < ints.len() && 0 <= j < ints.len() && i != j implies ints[i]
            != ints[j] by {
            assert(s[i] != s[j]);
        }
    }
    let range = vstd::set_lib::set_int_range(0, n as int);
    vstd::set_lib::lemma_int_range(0, n as int);
    assert(ints.to_set().subset_of(range)) by {
        assert forall|v: int| ints.to_set().contains(v) implies range.contains(v) by {
            let k = choose|k: int| 0 <= k < ints.len() && ints[k] == v;
            assert(s[k] < n);
        }
    }
    vstd::set_lib::lemma_len_subset(ints.to_set(), range);
    ints.unique_seq_to_set();
}

impl ComputeGraph {
    /// Create a new empty computation graph
    pub fn new() -> (r: Self)
        ensures
            r@ == GraphView::empty(false),
            r@.wf(),
    {
        let r = Self {
            nodes: Vec::with_capacity(1024),
            leafs: Vec::with_capacity(256),
            tensor_map: Vec::new(),
            execution_order: Vec::new(),
            built: false,
            grad_enabled: false,
        };
        assert(r@.nodes =~= Seq::<NodeView>::empty());
        assert(r@.ids =~= Seq::<(Seq<char>, usize)>::empty());
        r
    }

    /// Create a new graph with gradient computation enabled
    pub fn with_gradients() -> (r: Self)
        ensures
            r@ == GraphView::empty(true),
            r@.wf(),
    {
        let mut graph = Self::new();
        graph.grad_enabled = true;
        graph
    }

    /// Add a tensor to the graph
    ///
    /// A tensor is known by its address: a tensor at an address already
    /// added keeps its node and index, any other tensor gets a new node.
    /// Where a tensor lies in memory is known only at run time, so the
    /// outcome is stated as that of `add_node_keyed` for the text of some
    /// address.
    pub fn add_node(&mut self, tensor: &Tensor, is_leaf: bool) -> (r: Result<usize, GraphError>)
        requires
            old(self)@.wf(),
        ensures
            final(self)@.wf(),
            exists|key: Seq<char>|
                (final(self)@, graph_result(r)) == #[trigger] old(self)@.add_node(key, tensor.op, is_leaf),
    {
        let key = address_text(tensor);
        let ghost k = key@;
        let r = self.add_node_keyed(key, tensor.op, is_leaf);
        assert((self@, graph_result(r)) == old(self)@.add_node(k, tensor.op, is_leaf));
        r
    }

    /// Add a node with operation `op` for the tensor whose address reads
    /// `key`; a key already added gives back its node.
    pub fn add_node_keyed(&mut self, key: String, op: OpType, is_leaf: bool) -> (r: Result<
        usize,
        GraphError,
    >)
        requires
            old(self)@.wf(),
        ensures
            final(self)@.wf(),
            (final(self)@, graph_result(r)) == old(self)@.add_node(key@, op, is_leaf),
    {
        if self.nodes.len() >= GGML_MAX_NODES {
            return Err(GraphError::GraphFull(GGML_MAX_NODES));
        }
        // Check if tensor already in graph
        proof {
            lemma_find_key(self@.ids, key@);
        }
        match find_entry(&self.tensor_map, &key) {
            Some(i) => {
                return Ok(self.tensor_map[i].1);
            },
            None => {},
        }
        let index = self.nodes.len();
        let node = GraphNode {
            index,
            op,
            sources: Vec::new(),
            is_leaf,
            requires_grad: self.grad_enabled,  // All nodes participate in gradient computation when enabled
            grad_index: None,
        };
        let ghost old_view = self@;
        let ghost kv = key@;
        self.nodes.push(node);
        self.tensor_map.push((key, index));
        assert(self@.ids =~= old_view.ids.push((kv, index)));
        if is_leaf {
            if self.leafs.len() >= GGML_MAX_LEAFS {
                // unreachable: there are never more leaves than nodes
                return Err(GraphError::GraphFull(GGML_MAX_LEAFS));
            }
            self.leafs.push(index);
        }
        self.built = false;  // Need to rebuild execution order
        assert(self@.nodes =~= old_view.nodes.push(node@));
        Ok(index)
    }

    /// Add an edge from source to destination
    pub fn add_edge(&mut self, from: usize, to: usize) -> (r: Result<(), GraphError>)
        requires
            old(self)@.wf(),
        ensures
            final(self)@.wf(),
            (final(self)@, graph_result(r)) == old(self)@.add_edge(from, to),
    {
        if to >= self.nodes.len() {
            return Err(GraphError::NodeNotFound);
        }
        let ghost old_view = self@;
        self.nodes[to].sources.push(from);
        self.built = false;
        assert(self@.nodes =~= old_view.nodes.update(
            to as int,
            NodeView { sources: old_view.nodes[to as int].sources.push(from), ..old_view.nodes[to as int] },
        ));
        assert forall|i: int| 0 <= i < self@.nodes.len() implies (#[trigger] self@.nodes[i]).index == i by {
            assert(old_view.nodes[i].index == i);
        }
        assert(self@.leafs == old_view.leafs);
        assert(self@.ids == old_view.ids);
        assert(self@.order == old_view.order);
        assert(self@.nodes.len() == old_view.nodes.len());
        assert(self@.wf());
        Ok(())
    }
}


impl ComputeGraph {
    proof fn lemma_srcs(&self, i: int)
        requires
            0 <= i < self.nodes@.len(),
        ensures
            self@.srcs()[i] == self.nodes@[i].sources@,
            self@.srcs().len() == self.nodes@.len(),
            self@.nodes.len() == self.nodes@.len(),
            self@.nodes[i] == self.nodes@[i]@,
    {
    }

    /// Perform topological sort to determine execution order
    ///
    /// Kahn's algorithm: a node is ready once every entry of its source list
    /// has been placed; each placed node counts once for each list it occurs in.
    fn topological_sort(&self) -> (r: Result<Vec<usize>, GraphError>)
        requires
            self@.wf(),
        ensures
            match r {
                Ok(o) => is_exec_order(self@.srcs(), o@) && o@ == kahn_order(self@.srcs()),
                Err(e) => e@ == GraphErrorView::CycleDetected && !has_exec_order(self@.srcs()),
            },
            r is Ok <==> kahn_order(self@.srcs()).len() == self@.srcs().len(),
    {
        let n = self.nodes.len();
        let ghost srcs = self@.srcs();
        assert(srcs.len() == n);
        // Calculate in-degrees
        let mut in_degree: Vec<usize> = Vec::new();
        let mut i: usize = 0;
        while i < n
            invariant
                n == self.nodes@.len(),
                srcs == self@.srcs(),
                i <= n,
                in_degree@.len() == i,
                forall|j: int| 0 <= j < i ==> in_degree@[j] == srcs[j].len(),
            decreases n - i,
        {
            proof {
                self.lemma_srcs(i as int);
            }
            in_degree.push(self.nodes[i].sources.len());
            i = i + 1;
        }
        // Queue of nodes with no incoming edges

        let mut queue: VecDeque<usize> = VecDeque::new();
        let mut order: Vec<usize> = Vec::with_capacity(n);
        let mut i: usize = 0;
        while i < n
            invariant
                n == self.nodes@.len(),
                srcs == self@.srcs(),
                srcs.len() == n,
                i <= n,
                in_degree@.len() == n,
                forall|j: int| 0 <= j < n ==> in_degree@[j] == srcs[j].len(),
                order@ == Seq::<usize>::empty(),
                queue@ == sourceless(srcs, i as int),
                queue@.no_duplicates(),
                forall|k: int| 0 <= k < queue@.len() ==> (#[trigger] queue@[k]) < i,
                forall|j: int|
                    0 <= j < i ==> (queue@.contains(j as usize) <==> in_degree@[j] == 0),
            decreases n - i,
        {
            if in_degree[i] == 0 {
                queue.push_back(i);
            }
            i = i + 1;
        }
        proof {
            assert forall|j: int| 0 <= j < n implies in_degree@[j] == srcs[j].len() - hits(
                srcs[j],
                order@,
            ) by {}
            assert(order@ + queue@ =~= queue@);
            lemma_distinct_below_len(queue@, n);
        }
        loop
            invariant
                n == self.nodes@.len(),
                srcs == self@.srcs(),
                srcs.len() == n,
                in_degree@.len() == n,
                order@.no_duplicates(),
                (order@ + queue@).no_duplicates(),
                forall|k: int| 0 <= k < (order@ + queue@).len() ==> (#[trigger] (order@
                    + queue@)[k]) < n,
                (order@ + queue@).len() <= n,
                forall|j: int|
                    0 <= j < n ==> #[trigger] in_degree@[j] == srcs[j].len() - hits(
                        srcs[j],
                        order@,
                    ),
                forall|j: int|
                    0 <= j < n ==> ((order@ + queue@).contains(j as usize) <==> #[trigger] in_degree@[j]
                        == 0),
                forall|k: int| 0 <= k < order@.len() ==> placed_after_sources(srcs, order@, k),
                kahn_from(srcs, order@, queue@, (n - order@.len()) as nat) == kahn_order(srcs),
            ensures
                queue@.len() == 0,
                order@ == kahn_order(srcs),
                n == self.nodes@.len(),
                srcs == self@.srcs(),
                srcs.len() == n,
                in_degree@.len() == n,
                order@.no_duplicates(),
                order@.len() <= n,
                forall|k: int| 0 <= k < order@.len() ==> (#[trigger] order@[k]) < n,
                forall|j: int|
                    0 <= j < n ==> #[trigger] in_degree@[j] == srcs[j].len() - hits(
                        srcs[j],
                        order@,
                    ),
                forall|j: int|
                    0 <= j < n ==> (order@.contains(j as usize) <==> #[trigger] in_degree@[j] == 0),
                forall|k: int| 0 <= k < order@.len() ==> placed_after_sources(srcs, order@, k),
            decreases n - order@.len(),
        {
            let ghost w = order@ + queue@;
            let ghost q0 = queue@;
            let node_idx = match queue.pop_front() {
                Some(x) => x,
                None => {
                    assert(order@ + queue@ =~= order@);
                    break;
                },
            };
            let ghost d_old = order@;
            let ghost q1 = queue@;
            let ghost fuel = (n - d_old.len()) as nat;
            proof {
                assert(w[d_old.len() as int] == node_idx);
                assert(in_degree@[node_idx as int] == 0) by {
                    assert(w.contains(node_idx));
                }
                lemma_hits_bound(srcs[node_idx as int], d_old);
                assert(!d_old.contains(node_idx)) by {
                    if d_old.contains(node_idx) {
                        let k = choose|k: int| 0 <= k < d_old.len() && d_old[k] == node_idx;
                        assert(w[k] == w[d_old.len() as int]);
                    }
                }
            }
            order.push(node_idx);
            let ghost d_new = order@;
            proof {
                assert(fuel > 0);
                assert(kahn_from(srcs, d_old, q0, fuel) == kahn_from(
                    srcs,
                    d_new,
                    q1 + released(srcs, d_new, node_idx, n as int),
                    (fuel - 1) as nat,
                ));
                assert(q1 + released(srcs, d_new, node_idx, 0) =~= q1);
                assert(order@ + queue@ =~= w);
                assert forall|k: int| 0 <= k < d_new.len() implies placed_after_sources(
                    srcs,
                    d_new,
                    k,
                ) by {
                    assert(d_new.take(k) =~= if k < d_old.len() {
                        d_old.take(k)
                    } else {
                        d_old
                    });
                    if k < d_old.len() {
                        assert(placed_after_sources(srcs, d_old, k));
                        assert(d_new[k] == d_old[k]);
                    }
                }
                assert(d_new.no_duplicates()) by {
                    assert forall|a: int, b: int| 0 <= a < b < d_new.len() implies d_new[a]
                        != d_new[b] by {
                        assert(d_new[a] == w[a]);
                        assert(d_new[b] == w[b]);
                    }
                }
            }
            // Find all nodes that depend on this node
            let mut i: usize = 0;
            while i < n
                invariant
                    n == self.nodes@.len(),
                    srcs == self@.srcs(),
                    srcs.len() == n,
                    in_degree@.len() == n,
                    i <= n,
                    node_idx < n,
                    d_new == d_old.push(node_idx),
                    order@ == d_new,
                    d_new.no_duplicates(),
                    !d_old.contains(node_idx),
                    (order@ + queue@).no_duplicates(),
                    forall|k: int| 0 <= k < (order@ + queue@).len() ==> (#[trigger] (order@
                        + queue@)[k]) < n,
                    (order@ + queue@).len() <= n,
                    forall|j: int|
                        0 <= j < i ==> #[trigger] in_degree@[j] == srcs[j].len() - hits(
                            srcs[j],
                            d_new,
                        ),
                    forall|j: int|
                        i <= j < n ==> #[trigger] in_degree@[j] == srcs[j].len() - hits(
                            srcs[j],
                            d_old,
                        ),
                    forall|j: int|
                        0 <= j < n ==> ((order@ + queue@).contains(j as usize) <==> #[trigger] in_degree@[j]
                            == 0),
                    forall|k: int| 0 <= k < order@.len() ==> placed_after_sources(srcs, order@, k),
                    queue@ == q1 + released(srcs, d_new, node_idx, i as int),
                    fuel == n - d_old.len(),
                    fuel > 0,
                    kahn_from(srcs, d_new, q1 + released(srcs, d_new, node_idx, n as int), (fuel - 1) as nat)
                        == kahn_order(srcs),
                decreases n - i,
            {
                proof {
                    self.lemma_srcs(i as int);
                    lemma_hits_push(srcs[i as int], d_old, node_idx);
                    lemma_hits_bound(srcs[i as int], d_new);
                }
                if contains_index(&self.nodes[i].sources, node_idx) {
                    let ghost w0 = order@ + queue@;
                    assert(!w0.contains(i)) by {
                        assert(in_degree@[i as int] > 0);
                    }
                    in_degree.set(i, in_degree[i] - 1);
                    if in_degree[i] == 0 {
                        queue.push_back(i);
                        proof {
                            assert(queue@ =~= q1 + released(srcs, d_new, node_idx, i + 1));
                            assert(order@ + queue@ =~= w0.push(i));
                            assert((order@ + queue@).no_duplicates()) by {
                                let w1 = order@ + queue@;
                                assert forall|a: int, b: int| 0 <= a < b < w1.len() implies w1[a]
                                    != w1[b] by {
                                    if b == w1.len() - 1 {
                                        assert(w0[a] == w1[a]);
                                    } else {
                                        assert(w0[a] == w1[a] && w0[b] == w1[b]);
                                    }
                                }
                            }
                            lemma_distinct_below_len(order@ + queue@, n);
                            assert forall|j: int|
                                0 <= j < n implies ((order@ + queue@).contains(j as usize)
                                <==> #[trigger] in_degree@[j] == 0) by {
                                if j != i {
                                    assert((order@ + queue@).contains(j as usize) <==> w0.contains(
                                        j as usize,
                                    ));
                                }
                            }
                        }
                    }
                }
                i = i + 1;
            }
        }
        // Check for cycles

        if order.len() != n {
            proof {
                if has_exec_order(srcs) {
                    let ord = choose|ord: Seq<usize>| is_exec_order(srcs, ord);
                    let d = order@;
                    let k = lemma_missing_entry(ord, d);
                    assert(placed_after_sources(srcs, ord, k));
                    let x = ord[k];
                    assert forall|m: int| 0 <= m < srcs[x as int].len() implies d.contains(
                        #[trigger] srcs[x as int][m],
                    ) by {
                        assert(ord.take(k).contains(srcs[x as int][m]));
                        let j = choose|j: int| 0 <= j < k && ord.take(k)[j] == srcs[x as int][m];
                        assert(d.contains(ord[j]));
                    }
                    lemma_hits_full(srcs[x as int], d);
                    assert(in_degree@[x as int] == 0);
                }
            }
            return Err(GraphError::CycleDetected);
        }
        Ok(order)
    }

    /// Build the graph (compute execution order)
    ///
    /// Succeeds exactly when the graph has an execution order: every node's
    /// source list names distinct existing nodes and no node depends on itself.
    /// The order is the one Kahn's algorithm gives with a first-in first-out
    /// queue, starting from the nodes without sources in index order.
    pub fn build(&mut self) -> (r: Result<(), GraphError>)
        requires
            old(self)@.wf(),
        ensures
            final(self)@.wf(),
            r is Ok <==> has_exec_order(old(self)@.srcs()),
            old(self)@.built ==> final(self)@ == old(self)@,
            !old(self)@.built ==> match r {
                Ok(_) => final(self)@ == (GraphView {
                    built: true,
                    order: kahn_order(old(self)@.srcs()),
                    ..old(self)@
                }) && is_exec_order(old(self)@.srcs(), final(self)@.order),
                Err(e) => e@ == GraphErrorView::CycleDetected && final(self)@ == old(self)@,
            },
    {
        if self.built {
            assert(is_exec_order(self@.srcs(), self@.order));
            return Ok(());
        }
        // Topological sort using Kahn's algorithm

        let order = self.topological_sort()?;
        self.execution_order = order;
        self.built = true;
        Ok(())
    }
}

/// The first entry of `s`, from position `j` on, that is not below `n`.
pub open spec fn first_bad_in(s: Seq<usize>, n: int, j: int) -> Option<usize>
    decreases s.len() - j,
{
    if j >= s.len() || j < 0 {
        None
    } else if s[j] >= n {
        Some(s[j])
    } else {
        first_bad_in(s, n, j + 1)
    }
}

/// The first source entry, scanning nodes from `i` on, that names no node.
pub open spec fn first_bad_source(srcs: Seq<Seq<usize>>, i: int) -> Option<usize>
    decreases srcs.len() - i,
{
    if i >= srcs.len() || i < 0 {
        None
    } else {
        match first_bad_in(srcs[i], srcs.len() as int, 0) {
            Some(x) => Some(x),
            None => first_bad_source(srcs, i + 1),
        }
    }
}

pub open spec fn invalid_source_text(s: usize) -> Seq<char> {
    "Invalid source index: "@ + decimal(s as nat)
}

/// The nodes among the first `k` whose source list contains `x`, ascending.
pub open spec fn dependents(srcs: Seq<Seq<usize>>, x: usize, k: int) -> Seq<usize>
    decreases k,
{
    if k <= 0 {
        Seq::empty()
    } else if srcs[k - 1].contains(x) {
        dependents(srcs, x, k - 1).push((k - 1) as usize)
    } else {
        dependents(srcs, x, k - 1)
    }
}

/// `p` walks from a node to one of its sources, again and again: every
/// step but the last is at an existing node.
pub open spec fn is_source_path(srcs: Seq<Seq<usize>>, p: Seq<usize>) -> bool {
    &&& p.len() >= 2
    &&& forall|k: int|
        0 <= k < p.len() - 1 ==> (#[trigger] p[k]) < srcs.len() && srcs[p[k] as int].contains(
            p[k + 1],
        )
}

/// `y` can be reached from `x` by one or more steps from a node to a source.
pub open spec fn is_ancestor(srcs: Seq<Seq<usize>>, x: usize, y: usize) -> bool {
    exists|p: Seq<usize>| is_source_path(srcs, p) && p[0] == x && p.last() == y
}

impl ComputeGraph {
    /// Get the execution order
    pub fn execution_order(&self) -> (r: &[usize])
        ensures
            r@ == self@.order,
    {
        self.execution_order.as_slice()
    }

    /// Get the number of nodes
    pub fn num_nodes(&self) -> (r: usize)
        ensures
            r == self@.nodes.len(),
    {
        self.nodes.len()
    }

    /// Get the number of leaf nodes
    pub fn num_leafs(&self) -> (r: usize)
        ensures
            r == self@.leafs.len(),
    {
        self.leafs.len()
    }

    /// Get a node by index
    pub fn get_node(&self, index: usize) -> (r: Option<&GraphNode>)
        ensures
            index < self@.nodes.len() ==> (r matches Some(n) && n@ == self@.nodes[index as int]),
            index >= self@.nodes.len() ==> r is None,
    {
        if index < self.nodes.len() {
            Some(&self.nodes[index])
        } else {
            None
        }
    }

    /// Get all leaf nodes
    pub fn leafs(&self) -> (r: &[usize])
        ensures
            r@ == self@.leafs,
    {
        self.leafs.as_slice()
    }

    /// Check if the graph is built
    pub fn is_built(&self) -> (r: bool)
        ensures
            r == self@.built,
    {
        self.built
    }

    /// Check if gradients are enabled
    pub fn has_gradients(&self) -> (r: bool)
        ensures
            r == self@.grad_enabled,
    {
        self.grad_enabled
    }

    /// Reset the graph
    pub fn reset(&mut self)
        ensures
            final(self)@ == GraphView::empty(old(self)@.grad_enabled),
            final(self)@.wf(),
    {
        self.nodes.clear();
        self.leafs.clear();
        self.tensor_map.clear();
        self.execution_order.clear();
        self.built = false;
        assert(self@.nodes =~= Seq::<NodeView>::empty());
        assert(self@.ids =~= Seq::<(Seq<char>, usize)>::empty());
    }

    /// Validate the graph structure
    ///
    /// Reports the first source index that names no node; a built graph has
    /// an execution order, so it has no cycle to report.
    pub fn validate(&self) -> (r: Result<(), GraphError>)
        requires
            self@.wf(),
        ensures
            graph_result(r) == match first_bad_source(self@.srcs(), 0) {
                Some(s) => Err(GraphErrorView::InvalidStructure(invalid_source_text(s))),
                None => Ok(()),
            },
    {
        let n = self.nodes.len();
        let ghost srcs = self@.srcs();
        // Check for invalid source indices
        let mut i: usize = 0;
        while i < n
            invariant
                n == self.nodes@.len(),
                srcs == self@.srcs(),
                srcs.len() == n,
                i <= n,
                first_bad_source(srcs, 0) == first_bad_source(srcs, i as int),
            decreases n - i,
        {
            proof {
                self.lemma_srcs(i as int);
            }
            let sources = &self.nodes[i].sources;
            let mut j: usize = 0;
            while j < sources.len()
                invariant
                    n == self.nodes@.len(),
                    srcs.len() == n,
                    i < n,
                    sources@ == srcs[i as int],
                    srcs == self@.srcs(),
                    j <= sources@.len(),
                    first_bad_source(srcs, 0) == first_bad_source(srcs, i as int),
                    first_bad_in(srcs[i as int], n as int, 0) == first_bad_in(
                        srcs[i as int],
                        n as int,
                        j as int,
                    ),
                decreases sources@.len() - j,
            {
                let source = sources[j];
                if source >= n {
                    assert(first_bad_in(srcs[i as int], n as int, j as int) == Some(source));
                    assert(first_bad_source(srcs, i as int) == Some(source));
                    let mut msg = String::from_str("Invalid source index: ");
                    push_decimal(&mut msg, source);
                    return Err(GraphError::InvalidStructure(msg));
                }
                j = j + 1;
            }
            i = i + 1;
        }
        // Check for cycles (if built)

        if self.built {
            proof {
                assert(is_exec_order(srcs, self@.order));
            }
            let _ = self.topological_sort()?;
        }
        Ok(())
    }

    /// Find all nodes that depend on a given node
    pub fn find_dependents(&self, node_idx: usize) -> (r: Vec<usize>)
        ensures
            r@ == dependents(self@.srcs(), node_idx, self@.nodes.len() as int),
    {
        let n = self.nodes.len();
        let mut result: Vec<usize> = Vec::new();
        let mut i: usize = 0;
        while i < n
            invariant
                n == self.nodes@.len(),
                i <= n,
                result@ == dependents(self@.srcs(), node_idx, i as int),
            decreases n - i,
        {
            proof {
                self.lemma_srcs(i as int);
            }
            if contains_index(&self.nodes[i].sources, node_idx) {
                result.push(i);
            }
            i = i + 1;
        }
        result
    }
}

/// Every value that occurs in the source lists of the first `k` nodes.
pub open spec fn source_values(srcs: Seq<Seq<usize>>, k: int) -> Set<usize>
    decreases k,
{
    if k <= 0 {
        Set::empty()
    } else {
        source_values(srcs, k - 1).union(srcs[k - 1].to_set())
    }
}

proof fn lemma_source_values(srcs: Seq<Seq<usize>>, k: int)
    requires
        0 <= k <= srcs.len(),
    ensures
        source_values(srcs, k).finite(),
        forall|i: int, m: int|
            0 <= i < k && 0 <= m < srcs[i].len() ==> source_values(srcs, k).contains(
                #[trigger] srcs[i][m],
            ),
    decreases k,
{
    broadcast use {vstd::set::group_set_axioms, vstd::seq_lib::seq_to_set_is_finite};

    if k > 0 {
        lemma_source_values(srcs, k - 1);
        assert forall|i: int, m: int|
            0 <= i < k && 0 <= m < srcs[i].len() implies source_values(srcs, k).contains(
            #[trigger] srcs[i][m],
        ) by {
            if i == k - 1 {
                assert(srcs[i].to_set().contains(srcs[i][m]));
            }
        }
    }
}

/// `y` is the start node or one of the nodes found so far.
pub open spec fn covered(start: usize, found: Set<usize>, y: usize) -> bool {
    y == start || found.contains(y)
}

/// Extending a path by one step from its last node to one of its sources.
proof fn lemma_extend_path(srcs: Seq<Seq<usize>>, x: usize, y: usize, s: usize)
    requires
        y == x || is_ancestor(srcs, x, y),
        y < srcs.len(),
        srcs[y as int].contains(s),
    ensures
        is_ancestor(srcs, x, s),
{
    if y == x {
        let p = seq![x, s];
        assert(is_source_path(srcs, p));
        assert(p.last() == s);
    } else {
        let p = choose|p: Seq<usize>| is_source_path(srcs, p) && p[0] == x && p.last() == y;
        let q = p.push(s);
        assert forall|k: int| 0 <= k < q.len() - 1 implies (#[trigger] q[k]) < srcs.len() && srcs[q[k] as int].contains(
            q[k + 1],
        ) by {
            if k < p.len() - 1 {
                assert(q[k] == p[k] && q[k + 1] == p[k + 1]);
            }
        }
        assert(is_source_path(srcs, q));
        assert(q.last() == s);
    }
}

/// A set holding the sources of `x` and of each of its own existing members
/// holds every node along a path from `x`.
proof fn lemma_closed_has_path(srcs: Seq<Seq<usize>>, x: usize, a: Set<usize>, p: Seq<usize>, k: int)
    requires
        is_source_path(srcs, p),
        p[0] == x,
        1 <= k < p.len(),
        x < srcs.len() ==> forall|m: int| 0 <= m < srcs[x as int].len() ==> a.contains(#[trigger] srcs[x as int][m]),
        forall|y: usize, m: int|
            a.contains(y) && y < srcs.len() && 0 <= m < srcs[y as int].len() ==> a.contains(
                #[trigger] srcs[y as int][m],
            ),
    ensures
        a.contains(p[k]),
    decreases k,
{
    assert(p[k - 1] < srcs.len() && srcs[p[k - 1] as int].contains(p[k]));
    let prev = p[k - 1] as int;
    let m = choose|m: int| 0 <= m < srcs[prev].len() && #[trigger] srcs[prev][m] == p[k];
    if k > 1 {
        lemma_closed_has_path(srcs, x, a, p, k - 1);
    }
}

impl ComputeGraph {
    /// Find all ancestors of a node (nodes it depends on)
    ///
    /// Everything reachable by one or more steps from a node to one of its
    /// sources; source entries naming no node are included but not followed.
    pub fn find_ancestors(&self, node_idx: usize) -> (r: HashSet<usize>)
        ensures
            r@.finite(),
            forall|y: usize| r@.contains(y) <==> is_ancestor(self@.srcs(), node_idx, y),
    {
        broadcast use vstd::set::group_set_axioms;

        let n = self.nodes.len();
        let ghost srcs = self@.srcs();
        let ghost u = source_values(srcs, n as int);
        proof {
            lemma_source_values(srcs, n as int);
        }
        let mut ancestors: HashSet<usize> = HashSet::new();
        let mut queue: VecDeque<usize> = VecDeque::new();
        queue.push_back(node_idx);
        let ghost mut expanded: Set<usize> = Set::empty();
        loop
            invariant
                n == self.nodes@.len(),
                srcs == self@.srcs(),
                srcs.len() == n,
                u == source_values(srcs, n as int),
                u.finite(),
                forall|i: int, m: int|
                    0 <= i < n && 0 <= m < srcs[i].len() ==> u.contains(#[trigger] srcs[i][m]),
                ancestors@.subset_of(u),
                forall|y: usize| #[trigger]
                    ancestors@.contains(y) ==> is_ancestor(srcs, node_idx, y),
                forall|k: int|
                    0 <= k < queue@.len() ==> (#[trigger] queue@[k]) == node_idx
                        || ancestors@.contains(queue@[k]),
                forall|y: usize|
                    #[trigger] covered(node_idx, ancestors@, y) ==> queue@.contains(y)
                        || expanded.contains(y),
                forall|y: usize, m: int|
                    expanded.contains(y) && y < n && 0 <= m < srcs[y as int].len()
                        ==> ancestors@.contains(#[trigger] srcs[y as int][m]),
            ensures
                forall|y: usize| #[trigger]
                    ancestors@.contains(y) ==> is_ancestor(srcs, node_idx, y),
                forall|y: usize|
                    #[trigger] covered(node_idx, ancestors@, y) ==> expanded.contains(y),
                forall|y: usize, m: int|
                    expanded.contains(y) && y < n && 0 <= m < srcs[y as int].len()
                        ==> ancestors@.contains(#[trigger] srcs[y as int][m]),
                ancestors@.finite(),
            decreases (u.len() - ancestors@.len()) * 2 + queue@.len(),
        {
            proof {
                vstd::set_lib::lemma_len_subset(ancestors@, u);
            }
            let ghost a0 = ancestors@;
            let ghost q0 = queue@;
            let idx = match queue.pop_front() {
                Some(x) => x,
                None => {
                    assert(queue@ == q0);
                    assert forall|y: usize|
                        #[trigger] covered(node_idx, ancestors@, y) implies expanded.contains(y) by {
                        if covered(node_idx, a0, y) {
                            assert(q0.contains(y) || expanded.contains(y));
                        }
                    }
                    break;
                },
            };
            assert(idx == q0[0]);
            proof {
                assert forall|y: usize|
                    #[trigger] covered(node_idx, ancestors@, y) implies queue@.contains(y)
                    || expanded.contains(y) || y == idx by {
                    if covered(node_idx, a0, y) {
                        assert(q0.contains(y) || expanded.contains(y));
                        if q0.contains(y) && y != idx {
                            let k = choose|k: int| 0 <= k < q0.len() && q0[k] == y;
                            assert(k != 0);
                            assert(queue@[k - 1] == y);
                        }
                    }
                }
            }
            if idx < n {
                proof {
                    self.lemma_srcs(idx as int);
                }
                let sources = &self.nodes[idx].sources;
                let mut j: usize = 0;
                while j < sources.len()
                    invariant
                        n == self.nodes@.len(),
                        srcs.len() == n,
                        idx < n,
                        sources@ == srcs[idx as int],
                        idx == node_idx || a0.contains(idx),
                        u.finite(),
                        forall|i: int, m: int|
                            0 <= i < n && 0 <= m < srcs[i].len() ==> u.contains(
                                #[trigger] srcs[i][m],
                            ),
                        j <= sources@.len(),
                        a0.subset_of(ancestors@),
                        ancestors@.subset_of(u),
                        ancestors@.finite(),
                        queue@.len() + a0.len() == q0.len() - 1 + ancestors@.len(),
                        forall|m: int| 0 <= m < j ==> ancestors@.contains(#[trigger] sources@[m]),
                        forall|y: usize| #[trigger]
                            ancestors@.contains(y) ==> is_ancestor(srcs, node_idx, y),
                        forall|k: int|
                            0 <= k < queue@.len() ==> (#[trigger] queue@[k]) == node_idx
                                || ancestors@.contains(queue@[k]),
                        forall|y: usize|
                            #[trigger] covered(node_idx, ancestors@, y) ==> queue@.contains(y)
                                || expanded.contains(y) || y == idx,
                        forall|y: usize, m: int|
                            expanded.contains(y) && y < n && 0 <= m < srcs[y as int].len()
                                ==> ancestors@.contains(#[trigger] srcs[y as int][m]),
                    decreases sources@.len() - j,
                {
                    let source = sources[j];
                    proof {
                        assert(srcs[idx as int].contains(source)) by {
                            assert(srcs[idx as int][j as int] == source);
                        }
                        lemma_extend_path(srcs, node_idx, idx, source);
                        assert(u.contains(srcs[idx as int][j as int]));
                    }
                    let ghost qb = queue@;
                    let ghost ab = ancestors@;
                    if ancestors.insert(source) {
                        queue.push_back(source);
                        proof {
                            assert forall|y: usize|
                                #[trigger] covered(node_idx, ancestors@, y) implies queue@.contains(y)
                                || expanded.contains(y) || y == idx by {
                                if y == source {
                                    assert(queue@[queue@.len() - 1] == y);
                                } else {
                                    assert(covered(node_idx, ab, y));
                                    assert(qb.contains(y) || expanded.contains(y) || y == idx);
                                    if qb.contains(y) {
                                        let k = choose|k: int| 0 <= k < qb.len() && qb[k] == y;
                                        assert(queue@[k] == y);
                                    }
                                }
                            }
                            assert forall|k: int|
                                0 <= k < queue@.len() implies (#[trigger] queue@[k]) == node_idx
                                    || ancestors@.contains(queue@[k]) by {
                                if k < qb.len() {
                                    assert(queue@[k] == qb[k]);
                                }
                            }
                        }
                    } else {
                        assert(ancestors@ =~= ab);
                    }
                    j = j + 1;
                }
            }
            proof {
                expanded = expanded.insert(idx);
                assert forall|y: usize|
                    #[trigger] covered(node_idx, ancestors@, y) implies queue@.contains(y)
                    || expanded.contains(y) by {
                    if !(y == idx) && !expanded.contains(y) && !queue@.contains(y) {
                        if covered(node_idx, a0, y) {
                            assert(q0.contains(y));
                            let k = choose|k: int| 0 <= k < q0.len() && q0[k] == y;
                            assert(k != 0);
                            assert(q0.drop_first()[k - 1] == y);
                        }
                    }
                }
                vstd::set_lib::lemma_len_subset(ancestors@, u);
                vstd::set_lib::lemma_len_subset(a0, ancestors@);
                assert(queue@.len() + a0.len() == q0.len() - 1 + ancestors@.len());
            }
        }
        proof {
            assert forall|y: usize, m: int|
                ancestors@.contains(y) && y < n && 0 <= m < srcs[y as int].len() implies ancestors@.contains(
                #[trigger] srcs[y as int][m],
            ) by {
                assert(covered(node_idx, ancestors@, y));
            }
            assert forall|y: usize| is_ancestor(srcs, node_idx, y) implies ancestors@.contains(y) by {
                let p = choose|p: Seq<usize>| is_source_path(srcs, p) && p[0] == node_idx && p.last() == y;
                assert(covered(node_idx, ancestors@, node_idx));
                assert(expanded.contains(node_idx));
                lemma_closed_has_path(srcs, node_idx, ancestors@, p, p.len() - 1);
            }
        }
        ancestors
    }
}

/// The largest entry of `t` at the positions `s[0..m]` (0 if there are none).
pub open spec fn max_at(t: Seq<nat>, s: Seq<usize>, m: int) -> nat
    decreases m,
{
    if m <= 0 {
        0
    } else {
        let a = max_at(t, s, m - 1);
        let b = t[s[m - 1] as int];
        if b > a {
            b
        } else {
            a
        }
    }
}

/// The largest of the first `k` entries of `t` (0 if there are none).
pub open spec fn max_prefix(t: Seq<nat>, k: int) -> nat
    decreases k,
{
    if k <= 0 {
        0
    } else {
        let a = max_prefix(t, k - 1);
        if t[k - 1] > a {
            t[k - 1]
        } else {
            a
        }
    }
}

/// Node depths after visiting the first `k` entries of `order`: a visited
/// node is one deeper than its deepest source, unvisited nodes are at 0.
pub open spec fn depth_table(srcs: Seq<Seq<usize>>, order: Seq<usize>, k: int) -> Seq<nat>
    decreases k,
{
    if k <= 0 {
        Seq::new(srcs.len(), |i: int| 0nat)
    } else {
        let t = depth_table(srcs, order, k - 1);
        let v = order[k - 1] as int;
        t.update(v, max_at(t, srcs[v], srcs[v].len() as int) + 1)
    }
}

/// Every source of every node in the execution order names a node.
pub open spec fn order_sources_valid(g: GraphView) -> bool {
    forall|k: int, m: int|
        0 <= k < g.order.len() && 0 <= m < g.srcs()[g.order[k] as int].len() ==> (#[trigger] g.srcs()[g.order[k] as int][m])
            < g.nodes.len()
}

/// Depth of the graph: the largest node depth when visiting the nodes in
/// execution order.
pub open spec fn spec_depth(g: GraphView) -> nat {
    max_prefix(depth_table(g.srcs(), g.order, g.order.len() as int), g.nodes.len() as int)
}

proof fn lemma_max_at_bound(t: Seq<nat>, s: Seq<usize>, m: int, b: nat)
    requires
        0 <= m <= s.len(),
        forall|j: int| 0 <= j < m ==> 0 <= s[j] < t.len() && t[s[j] as int] <= b,
    ensures
        max_at(t, s, m) <= b,
    decreases m,
{
    if m > 0 {
        lemma_max_at_bound(t, s, m - 1, b);
    }
}

impl ComputeGraph {
    /// Get the depth of the graph (longest path from leaf to any node)
    pub fn depth(&self) -> (r: usize)
        requires
            self@.wf(),
            order_sources_valid(self@),
        ensures
            r == spec_depth(self@),
    {
        let n = self.nodes.len();
        if n == 0 {
            return 0;
        }
        let ghost srcs = self@.srcs();
        let ghost order = self@.order;
        proof {
            lemma_distinct_below_len(order, n);
        }
        let mut depths: Vec<usize> = Vec::new();
        let mut i: usize = 0;
        while i < n
            invariant
                i <= n,
                depths@.len() == i,
                forall|j: int| 0 <= j < i ==> depths@[j] == 0,
            decreases n - i,
        {
            depths.push(0);
            i = i + 1;
        }
        assert(depths@.map_values(|d: usize| d as nat) =~= depth_table(srcs, order, 0));
        // Process in topological order
        let len = self.execution_order.len();
        let mut k: usize = 0;
        while k < len
            invariant
                n == self.nodes@.len(),
                srcs == self@.srcs(),
                srcs.len() == n,
                order == self@.order,
                len == order.len(),
                len <= n,
                self@.wf(),
                order_sources_valid(self@),
                k <= len,
                depths@.len() == n,
                depths@.map_values(|d: usize| d as nat) == depth_table(srcs, order, k as int),
                forall|j: int| 0 <= j < n ==> depths@[j] <= k,
            decreases len - k,
        {
            let node_idx = self.execution_order[k];
            proof {
                self.lemma_srcs(node_idx as int);
            }
            let sources = &self.nodes[node_idx].sources;
            let ghost t = depth_table(srcs, order, k as int);
            let mut max_source_depth: usize = 0;
            assert(order[k as int] == node_idx);
            let mut m: usize = 0;
            while m < sources.len()
                invariant
                    n == self.nodes@.len(),
                    srcs.len() == n,
                    node_idx < n,
                    k < len,
                    len == order.len(),
                    order[k as int] == node_idx,
                    sources@ == srcs[node_idx as int],
                    order_sources_valid(self@),
                    srcs == self@.srcs(),
                    order == self@.order,
                    m <= sources@.len(),
                    depths@.len() == n,
                    depths@.map_values(|d: usize| d as nat) == t,
                    forall|j: int| 0 <= j < n ==> depths@[j] <= k,
                    max_source_depth == max_at(t, sources@, m as int),
                    max_source_depth <= k,
                decreases sources@.len() - m,
            {
                let s = sources[m];
                assert(srcs[order[k as int] as int][m as int] < n);
                let d = depths[s];
                assert(t[s as int] == d);
                if d > max_source_depth {
                    max_source_depth = d;
                }
                m = m + 1;
            }
            depths.set(node_idx, max_source_depth + 1);
            assert(depths@.map_values(|d: usize| d as nat) =~= depth_table(srcs, order, k + 1));
            k = k + 1;
        }
        let mut best: usize = 0;
        let mut j: usize = 0;
        let ghost t = depth_table(srcs, order, len as int);
        while j < n
            invariant
                j <= n,
                depths@.len() == n,
                depths@.map_values(|d: usize| d as nat) == t,
                best == max_prefix(t, j as int),
            decreases n - j,
        {
            assert(t[j as int] == depths@[j as int]);
            if depths[j] > best {
                best = depths[j];
            }
            j = j + 1;
        }
        best
    }

    /// Get graph statistics
    pub fn stats(&self) -> (r: GraphStats)
        ensures
            r.num_nodes == self@.nodes.len(),
            r.num_leafs == self@.leafs.len(),
            r.is_built == self@.built,
            r.has_gradients == self@.grad_enabled,
            tally_of(r.num_ops@, node_ops(self@.nodes)),
            count_sum(r.num_ops@) == self@.nodes.len(),
    {
        let n = self.nodes.len();
        let ghost ops = node_ops(self@.nodes);
        let mut num_ops: Vec<(OpType, usize)> = Vec::new();
        let mut i: usize = 0;
        while i < n
            invariant
                n == self.nodes@.len(),
                ops == node_ops(self@.nodes),
                ops.len() == n,
                i <= n,
                tally_of(num_ops@, ops.take(i as int)),
                count_sum(num_ops@) == i,
            decreases n - i,
        {
            let op = self.nodes[i].op;
            assert(ops[i as int] == op);
            let ghost prev = ops.take(i as int);
            let ghost next = ops.take(i + 1);
            proof {
                assert(next.drop_last() =~= prev);
                assert(next.last() == op);
                lemma_op_count_len(prev, op);
            }
            let mut k: usize = 0;
            let mut found = false;
            while k < num_ops.len()
                invariant_except_break
                    !found,
                invariant
                    k <= num_ops@.len(),
                    forall|j: int| 0 <= j < k ==> num_ops@[j].0 != op,
                ensures
                    found ==> k < num_ops@.len() && num_ops@[k as int].0 == op,
                    !found ==> forall|j: int| 0 <= j < num_ops@.len() ==> num_ops@[j].0 != op,
                decreases num_ops@.len() - k,
            {
                if num_ops[k].0 == op {
                    found = true;
                    break;
                }
                k = k + 1;
            }
            let ghost before = num_ops@;
            if found {
                let c = num_ops[k].1;
                assert(c == op_count(prev, op)) by {
                    assert(num_ops@[k as int].1 == op_count(prev, num_ops@[k as int].0));
                }
                num_ops.set(k, (op, c + 1));
                proof {
                    lemma_count_sum_update(before, k as int, (op, (c + 1) as usize));
                }
            } else {
                num_ops.push((op, 1));
                proof {
                    assert(num_ops@.drop_last() =~= before);
                }
            }
            proof {
                let e = num_ops@;
                if !found {
                    if op_count(prev, op) > 0 {
                        let j = lemma_op_count_pos(prev, op);
                        let q = choose|q: int| 0 <= q < before.len() && before[q].0 == prev[j];
                    }
                }
                assert forall|q: int| 0 <= q < e.len() implies (#[trigger] e[q]).1 == op_count(next, e[q].0)
                    && e[q].1 > 0 by {
                    if q < before.len() && !(found && q == k) {
                        assert(e[q] == before[q]);
                    }
                }
                assert forall|a: int, b: int| 0 <= a < b < e.len() implies e[a].0 != e[b].0 by {
                    if b < before.len() {
                        assert(before[a].0 != before[b].0 || a == b);
                    }
                }
                assert forall|j: int| 0 <= j < next.len() implies exists|q: int|
                    0 <= q < e.len() && e[q].0 == #[trigger] next[j] by {
                    if j < i {
                        assert(next[j] == prev[j]);
                        let q = choose|q: int| 0 <= q < before.len() && before[q].0 == prev[j];
                        assert(e[q].0 == next[j]);
                    } else {
                        if found {
                            assert(e[k as int].0 == next[j]);
                        } else {
                            assert(e[before.len() as int].0 == next[j]);
                        }
                    }
                }
            }
            i = i + 1;
        }
        assert(ops.take(n as int) =~= ops);
        GraphStats {
            num_nodes: n,
            num_leafs: self.leafs.len(),
            num_ops,
            is_built: self.built,
            has_gradients: self.grad_enabled,
        }
    }
}

impl Default for ComputeGraph {
    fn default() -> (r: Self)
        ensures
            r@ == GraphView::empty(false),
            r@.wf(),
    {
        Self::new()
    }
}

/// The operation of each node.
pub open spec fn node_ops(nodes: Seq<NodeView>) -> Seq<OpType> {
    nodes.map_values(|n: NodeView| n.op)
}

/// How many entries of `ops` are `op`.
pub open spec fn op_count(ops: Seq<OpType>, op: OpType) -> nat
    decreases ops.len(),
{
    if ops.len() == 0 {
        0
    } else {
        op_count(ops.drop_last(), op) + if ops.last() == op {
            1nat
        } else {
            0nat
        }
    }
}

proof fn lemma_op_count_len(ops: Seq<OpType>, op: OpType)
    ensures
        op_count(ops, op) <= ops.len(),
    decreases ops.len(),
{
    if ops.len() > 0 {
        lemma_op_count_len(ops.drop_last(), op);
    }
}

proof fn lemma_op_count_pos(ops: Seq<OpType>, op: OpType) -> (j: int)
    requires
        op_count(ops, op) > 0,
    ensures
        0 <= j < ops.len(),
        ops[j] == op,
    decreases ops.len(),
{
    if ops.last() == op {
        ops.len() - 1
    } else {
        lemma_op_count_pos(ops.drop_last(), op)
    }
}

/// The sum of the counts.
pub open spec fn count_sum(entries: Seq<(OpType, usize)>) -> int
    decreases entries.len(),
{
    if entries.len() == 0 {
        0
    } else {
        count_sum(entries.drop_last()) + entries.last().1
    }
}

proof fn lemma_count_sum_update(e: Seq<(OpType, usize)>, k: int, x: (OpType, usize))
    requires
        0 <= k < e.len(),
    ensures
        count_sum(e.update(k, x)) == count_sum(e) - e[k].1 + x.1,
    decreases e.len(),
{
    let u = e.update(k, x);
    if k < e.len() - 1 {
        assert(u.drop_last() =~= e.drop_last().update(k, x));
        lemma_count_sum_update(e.drop_last(), k, x);
    } else {
        assert(u.drop_last() =~= e.drop_last());
    }
}

/// `entries` counts the operations in `ops`: one entry per distinct
/// operation, holding the number of times it occurs.
pub open spec fn tally_of(entries: Seq<(OpType, usize)>, ops: Seq<OpType>) -> bool {
    &&& forall|a: int, b: int| 0 <= a < b < entries.len() ==> entries[a].0 != entries[b].0
    &&& forall|k: int|
        0 <= k < entries.len() ==> (#[trigger] entries[k]).1 == op_count(ops, entries[k].0)
            && entries[k].1 > 0
    &&& forall|j: int|
        0 <= j < ops.len() ==> exists|k: int| 0 <= k < entries.len() && entries[k].0 == #[trigger] ops[j]
}

/// Graph statistics
#[derive(Debug, Clone)]
pub struct GraphStats {
    pub num_nodes: usize,
    pub num_leafs: usize,
    /// Number of nodes per operation, one entry per operation present
    pub num_ops: Vec<(OpType, usize)>,
    pub is_built: bool,
    pub has_gradients: bool,
}

impl GraphStats {
    /// Get the total number of operations
    pub fn total_ops(&self) -> (r: usize)
        requires
            count_sum(self.num_ops@) <= usize::MAX,
        ensures
            r == count_sum(self.num_ops@),
    {
        let mut total: usize = 0;
        let mut k: usize = 0;
        while k < self.num_ops.len()
            invariant
                k <= self.num_ops@.len(),
                total == count_sum(self.num_ops@.take(k as int)),
                count_sum(self.num_ops@) <= usize::MAX,
            decreases self.num_ops@.len() - k,
        {
            proof {
                assert(self.num_ops@.take(k + 1).drop_last() =~= self.num_ops@.take(k as int));
                lemma_count_sum_prefix(self.num_ops@, k + 1);
            }
            total = total + self.num_ops[k].1;
            k = k + 1;
        }
        assert(self.num_ops@.take(k as int) =~= self.num_ops@);
        total
    }

    /// Get the most common operation
    ///
    /// Among several operations of the largest count, the last listed is returned.
    pub fn most_common_op(&self) -> (r: Option<(OpType, usize)>)
        ensures
            r is None <==> self.num_ops@.len() == 0,
            r matches Some(p) ==> exists|j: int|
                0 <= j < self.num_ops@.len() && self.num_ops@[j] == p && forall|k: int|
                    0 <= k < self.num_ops@.len() ==> ((#[trigger] self.num_ops@[k]).1 <= p.1 && (j
                        < k ==> self.num_ops@[k].1 < p.1)),
    {
        if self.num_ops.len() == 0 {
            return None;
        }
        let mut best = self.num_ops[0];
        let ghost mut bi: int = 0;
        let mut k: usize = 1;
        while k < self.num_ops.len()
            invariant
                1 <= k <= self.num_ops@.len(),
                0 <= bi < k,
                self.num_ops@[bi] == best,
                forall|j: int|
                    0 <= j < k ==> ((#[trigger] self.num_ops@[j]).1 <= best.1 && (bi < j
                        ==> self.num_ops@[j].1 < best.1)),
            decreases self.num_ops@.len() - k,
        {
            let e = self.num_ops[k];
            if e.1 >= best.1 {
                best = e;
                proof {
                    bi = k as int;
                }
            }
            k = k + 1;
        }
        Some(best)
    }
}

proof fn lemma_count_sum_prefix(e: Seq<(OpType, usize)>, k: int)
    requires
        0 <= k <= e.len(),
    ensures
        count_sum(e.take(k)) <= count_sum(e),
    decreases e.len(),
{
    if k < e.len() {
        assert(e.drop_last().take(k) =~= e.take(k));
        lemma_count_sum_prefix(e.drop_last(), k);
    } else {
        assert(e.take(k) =~= e);
    }
}

/// Adding a tensor at an address already in the graph gives back the
/// index it got the first time and leaves the graph as it is
/// (unless the graph has become full, which is checked first).
pub proof fn lemma_add_node_twice(g: GraphView, key: Seq<char>, op: OpType, is_leaf: bool, op2: OpType, is_leaf2: bool)
    requires
        g.wf(),
        g.add_node(key, op, is_leaf).1 is Ok,
        g.add_node(key, op, is_leaf).0.nodes.len() < GGML_MAX_NODES,
    ensures
        g.add_node(key, op, is_leaf).0.add_node(key, op2, is_leaf2) == g.add_node(key, op, is_leaf),
{
    lemma_find_key(g.ids, key);
    let g1 = g.add_node(key, op, is_leaf).0;
    lemma_find_key(g1.ids, key);
    if lookup(g.ids, key) is None {
        assert(g1.ids.last() == (key, g.nodes.len() as usize));
    }
}

proof fn lemma_first_bad_in_none(s: Seq<usize>, n: int, j: int)
    requires
        0 <= j,
        forall|m: int| 0 <= m < s.len() ==> s[m] < n,
    ensures
        first_bad_in(s, n, j) is None,
    decreases s.len() - j,
{
    if j < s.len() {
        lemma_first_bad_in_none(s, n, j + 1);
    }
}

proof fn lemma_first_bad_source_none(srcs: Seq<Seq<usize>>, i: int)
    requires
        0 <= i,
        forall|a: int, m: int| 0 <= a < srcs.len() && 0 <= m < srcs[a].len() ==> srcs[a][m] < srcs.len(),
    ensures
        first_bad_source(srcs, i) is None,
    decreases srcs.len() - i,
{
    if i < srcs.len() {
        lemma_first_bad_in_none(srcs[i], srcs.len() as int, 0);
        lemma_first_bad_source_none(srcs, i + 1);
    }
}

/// A graph with an execution order has no source entry naming no node, so
/// `validate` accepts it.
pub proof fn lemma_ordered_graph_is_valid(srcs: Seq<Seq<usize>>)
    requires
        has_exec_order(srcs),
        srcs.len() <= usize::MAX,
    ensures
        first_bad_source(srcs, 0) is None,
{
    let ord = choose|ord: Seq<usize>| is_exec_order(srcs, ord);
    assert forall|a: int, m: int| 0 <= a < srcs.len() && 0 <= m < srcs[a].len() implies srcs[a][m]
        < srcs.len() by {
        if !ord.contains(a as usize) {
            let s = ord.push(a as usize);
            assert forall|x: int, y: int| 0 <= x < y < s.len() implies s[x] != s[y] by {
                if y == s.len() - 1 {
                    assert(ord[x] == s[x]);
                }
            }
            assert(s.no_duplicates());
            lemma_distinct_below_len(s, srcs.len() as usize);
        }
        let k = choose|k: int| 0 <= k < ord.len() && ord[k] == a as usize;
        assert(placed_after_sources(srcs, ord, k));
        assert(ord[k] as int == a);
        assert(ord.take(k).contains(srcs[ord[k] as int][m]));
        let j = choose|j: int| 0 <= j < k && ord.take(k)[j] == srcs[a][m];
        assert(ord[j] < srcs.len());
    }
    lemma_first_bad_source_none(srcs, 0);
}
} // verus!
