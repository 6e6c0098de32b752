//! The parser graph: nodes that own parsers and ordered edges between them.
use vstd::prelude::*;
use crate::error::{bail, ErrorType, PeelError};

verus! {

/// The largest number of successful parser invocations of a traversal, unless set otherwise.
pub const DEFAULT_MAX_DEPTH: usize = 100;

/// The handles of a graph of `n` nodes, in increasing order.
pub open spec fn handles(n: nat) -> Seq<usize> {
    Seq::new(n, |i: int| i as usize)
}

/// The abstract content of a graph.
pub struct GraphView<P> {
    /// The parser of each node; a node's handle is its index.
    pub nodes: Seq<P>,
    /// The children of each node, in the order the edges were added.
    pub children: Seq<Seq<usize>>,
    /// The bound on successful parser invocations of one traversal.
    pub max_depth: nat,
}

impl<P> GraphView<P> {
    /// Every edge joins two existing nodes, no ordered pair has two edges, and the
    /// depth bound is positive.
    pub open spec fn wf(self) -> bool {
        &&& self.children.len() == self.nodes.len()
        &&& self.max_depth >= 1
        &&& forall|n: int| 0 <= n < self.children.len() ==> #[trigger] self.children[n].no_duplicates()
        &&& forall|n: int, j: int|
            0 <= n < self.children.len() && 0 <= j < self.children[n].len() ==>
                (#[trigger] self.children[n][j]) < self.nodes.len()
    }

    /// Some edge ends at `n`.
    pub open spec fn has_parent(self, n: int) -> bool {
        exists|m: int, j: int|
            0 <= m < self.children.len() && 0 <= j < self.children[m].len()
                && #[trigger] self.children[m][j] == n
    }

    /// `n` is a node that no edge ends at.
    pub open spec fn is_root(self, n: int) -> bool {
        0 <= n < self.nodes.len() && !self.has_parent(n)
    }

    /// The lowest root at or above `i`, if any.
    pub open spec fn root_from(self, i: int) -> Option<usize>
        decreases self.nodes.len() - i,
    {
        if i < 0 || i >= self.nodes.len() {
            None
        } else if self.is_root(i) {
            Some(i as usize)
        } else {
            self.root_from(i + 1)
        }
    }

    /// The graph after adding an edge from `a` to `b`, where an edge already there is kept.
    pub open spec fn linked(self, a: usize, b: usize) -> GraphView<P> {
        GraphView {
            children: self.children.update(
                a as int,
                if self.children[a as int].contains(b) {
                    self.children[a as int]
                } else {
                    self.children[a as int].push(b)
                },
            ),
            ..self
        }
    }

    /// The graph after adding a node with parser `p` and an edge from `parent` to it.
    pub open spec fn with_new_child(self, parent: usize, p: P) -> GraphView<P> {
        GraphView {
            nodes: self.nodes.push(p),
            children: self.children.update(
                parent as int,
                self.children[parent as int].push(self.nodes.len() as usize),
            ).push(Seq::empty()),
            ..self
        }
    }

    /// The lowest root of the graph, if any.
    pub open spec fn first_root(self) -> Option<usize> {
        self.root_from(0)
    }
}

/// A directed graph whose nodes own parsers of type `P`.
pub struct Peel<P> {
    nodes: Vec<P>,
    edges: Vec<Vec<usize>>,
    parented: Vec<bool>,
    max_depth: usize,
}

impl<P> View for Peel<P> {
    type V = GraphView<P>;

    closed spec fn view(&self) -> GraphView<P> {
        GraphView {
            nodes: self.nodes@,
            children: Seq::new(self.edges@.len(), |i: int| self.edges@[i]@),
            max_depth: self.max_depth as nat,
        }
    }
}

impl<P> Peel<P> {
    /// The graph's invariant.
    pub closed spec fn wf(&self) -> bool {
        &&& self@.wf()
        &&& self.edges@.len() == self.nodes@.len()
        &&& self.parented@.len() == self.nodes@.len()
        &&& forall|n: int| 0 <= n < self.nodes@.len() ==> self.parented@[n] == #[trigger] self@.has_parent(n)
    }

    /// An empty graph with the default depth bound.
    pub fn new() -> (g: Self)
        ensures
            g.wf(),
            g@.nodes.len() == 0,
            g@.children.len() == 0,
            g@.max_depth == DEFAULT_MAX_DEPTH,
    {
        Peel { nodes: Vec::new(), edges: Vec::new(), parented: Vec::new(), max_depth: DEFAULT_MAX_DEPTH }
    }

    /// The number of nodes.
    pub fn node_count(&self) -> (n: usize)
        requires
            self.wf(),
        ensures
            n == self@.nodes.len(),
    {
        self.nodes.len()
    }

    /// The bound on successful parser invocations of one traversal.
    pub fn max_depth(&self) -> (d: usize)
        ensures
            d == self@.max_depth,
    {
        self.max_depth
    }

    /// Sets the bound on successful parser invocations of one traversal.
    pub fn set_max_depth(&mut self, depth: usize)
        requires
            old(self).wf(),
            depth >= 1,
        ensures
            final(self).wf(),
            final(self)@ == (GraphView { max_depth: depth as nat, ..old(self)@ }),
    {
        self.max_depth = depth;
        proof {
            assert(self@.children =~= old(self)@.children);
            assert forall|n: int| 0 <= n < self.nodes@.len() implies self.parented@[n] == #[trigger] self@.has_parent(n) by {
                assert(self@.has_parent(n) == old(self)@.has_parent(n));
            }
        }
    }

    /// The handles of all nodes, in increasing order.
    pub fn node_indices(&self) -> (r: Vec<usize>)
        requires
            self.wf(),
        ensures
            r@ == handles(self@.nodes.len()),
    {
        let mut r: Vec<usize> = Vec::new();
        let mut i: usize = 0;
        while i < self.nodes.len()
            invariant
                i <= self.nodes@.len(),
                r@ == Seq::new(i as nat, |k: int| k as usize),
            decreases self.nodes@.len() - i,
        {
            r.push(i);
            i = i + 1;
            assert(r@ =~= Seq::new(i as nat, |k: int| k as usize));
        }
        r
    }

    /// The children of node `n` in the order their edges were added, or `None` when `n`
    /// names no node.
    pub fn children(&self, n: usize) -> (r: Option<Vec<usize>>)
        requires
            self.wf(),
        ensures
            r is Some <==> n < self@.nodes.len(),
            r is Some ==> r->0@ == self@.children[n as int],
    {
        if n < self.edges.len() {
            Some(self.edges[n].clone())
        } else {
            None
        }
    }

    /// The parser of node `n`, or `None` when `n` names no node.
    pub fn parser(&self, n: usize) -> (r: Option<&P>)
        requires
            self.wf(),
        ensures
            r is Some <==> n < self@.nodes.len(),
            r is Some ==> *r->0 == self@.nodes[n as int],
    {
        if n < self.nodes.len() {
            Some(&self.nodes[n])
        } else {
            None
        }
    }

    /// Adds `p` as a new node without edges and returns its handle.
    pub fn new_parser(&mut self, p: P) -> (id: usize)
        requires
            old(self).wf(),
            old(self)@.nodes.len() < usize::MAX,
        ensures
            final(self).wf(),
            id == old(self)@.nodes.len(),
            final(self)@.nodes == old(self)@.nodes.push(p),
            final(self)@.children == old(self)@.children.push(Seq::empty()),
            final(self)@.max_depth == old(self)@.max_depth,
    {
        self.nodes.push(p);
        self.edges.push(Vec::new());
        self.parented.push(false);
        let id = self.nodes.len() - 1;
        proof {
            let o = old(self)@;
            let v = self@;
            assert(v.children =~= o.children.push(Seq::empty()));
            assert forall|n: int| 0 <= n < v.nodes.len() implies self.parented@[n] == #[trigger] v.has_parent(n) by {
                if v.has_parent(n) {
                    let (m, j) = choose|m: int, j: int|
                        0 <= m < v.children.len() && 0 <= j < v.children[m].len()
                            && #[trigger] v.children[m][j] == n;
                    assert(o.children[m][j] == n);
                }
                if n < o.nodes.len() && o.has_parent(n) {
                    let (m, j) = choose|m: int, j: int|
                        0 <= m < o.children.len() && 0 <= j < o.children[m].len()
                            && #[trigger] o.children[m][j] == n;
                    assert(v.children[m][j] == n);
                }
            }
        }
        id
    }

    /// Adds an edge from `parent` to `child`. An edge that is already there is kept as
    /// it is, so each ordered pair has at most one edge. Fails when either handle names
    /// no node.
    pub fn link(&mut self, parent: usize, child: usize) -> (r: Result<(), PeelError>)
        requires
            old(self).wf(),
        ensures
            final(self).wf(),
            r is Ok <==> parent < old(self)@.nodes.len() && child < old(self)@.nodes.len(),
            r is Err ==> r->Err_0.code == ErrorType::UnknownNode && final(self)@ == old(self)@,
            r is Ok ==> final(self)@ == old(self)@.linked(parent, child),
    {
        if parent >= self.nodes.len() || child >= self.nodes.len() {
            return Err(bail(ErrorType::UnknownNode, "no node with this handle"));
        }
        let mut k: usize = 0;
        let n = self.edges[parent].len();
        while k < n
            invariant
                *self == *old(self),
                old(self).wf(),
                parent < old(self)@.nodes.len(),
                child < old(self)@.nodes.len(),
                n == self.edges@[parent as int]@.len(),
                k <= n,
                forall|j: int| 0 <= j < k ==> self.edges@[parent as int]@[j] != child,
            decreases n - k,
        {
            if self.edges[parent][k] == child {
                proof {
                    assert(old(self)@.children[parent as int][k as int] == child);
                    assert(self@.children =~= old(self)@.children.update(parent as int, old(self)@.children[parent as int]));
                }
                return Ok(());
            }
            k = k + 1;
        }
        let ghost o = old(self)@;
        assert(!o.children[parent as int].contains(child));
        let mut row = self.edges[parent].clone();
        row.push(child);
        self.edges.set(parent, row);
        self.parented.set(child, true);
        proof {
            let v = self@;
            assert(v.children =~= o.children.update(parent as int, o.children[parent as int].push(child)));
            assert forall|m: int| 0 <= m < v.children.len() implies #[trigger] v.children[m].no_duplicates() by {
                if m == parent {
                    assert(o.children[m].no_duplicates());
                }
            }
            assert forall|m: int, j: int|
                0 <= m < v.children.len() && 0 <= j < v.children[m].len() implies
                    (#[trigger] v.children[m][j]) < v.nodes.len() by {
                if m == parent && j == o.children[m].len() {
                } else {
                    assert(v.children[m][j] == o.children[m][j]);
                }
            }
            assert(v.children[parent as int][o.children[parent as int].len() as int] == child);
            assert forall|x: int| 0 <= x < v.nodes.len() implies self.parented@[x] == #[trigger] v.has_parent(x) by {
                if v.has_parent(x) && x != child {
                    let (m, j) = choose|m: int, j: int|
                        0 <= m < v.children.len() && 0 <= j < v.children[m].len()
                            && #[trigger] v.children[m][j] == x;
                    assert(o.children[m][j] == x);
                }
                if o.has_parent(x) {
                    let (m, j) = choose|m: int, j: int|
                        0 <= m < o.children.len() && 0 <= j < o.children[m].len()
                            && #[trigger] o.children[m][j] == x;
                    assert(v.children[m][j] == x);
                }
            }
        }
        Ok(())
    }

    /// Adds `p` as a new node with an edge from `parent` and returns its handle. Fails,
    /// leaving the graph as it was, when `parent` names no node.
    pub fn link_new_parser(&mut self, parent: usize, p: P) -> (r: Result<usize, PeelError>)
        requires
            old(self).wf(),
            old(self)@.nodes.len() < usize::MAX,
        ensures
            final(self).wf(),
            r is Ok <==> parent < old(self)@.nodes.len(),
            r is Err ==> r->Err_0.code == ErrorType::UnknownNode && final(self)@ == old(self)@,
            r is Ok ==> r->Ok_0 == old(self)@.nodes.len() && final(self)@ == old(self)@.with_new_child(parent, p),
    {
        if parent >= self.nodes.len() {
            return Err(bail(ErrorType::UnknownNode, "no node with this handle"));
        }
        let id = self.new_parser(p);
        let ghost mid = self@;
        proof {
            assert(!mid.children[parent as int].contains(id)) by {
                if mid.children[parent as int].contains(id) {
                    let j = choose|j: int| 0 <= j < mid.children[parent as int].len() && mid.children[parent as int][j] == id;
                    assert(old(self)@.children[parent as int][j] < old(self)@.nodes.len());
                }
            }
        }
        let res = self.link(parent, id);
        proof {
            assert(self@.children =~= old(self)@.children.update(
                parent as int,
                old(self)@.children[parent as int].push(id),
            ).push(Seq::empty()));
        }
        Ok(id)
    }

    /// The lowest node that no edge ends at, if any.
    pub fn first_root(&self) -> (r: Option<usize>)
        requires
            self.wf(),
        ensures
            r == self@.first_root(),
    {
        let mut i: usize = 0;
        while i < self.parented.len()
            invariant
                self.wf(),
                i <= self.nodes@.len(),
                self@.root_from(0) == self@.root_from(i as int),
            decreases self.nodes@.len() - i,
        {
            if !self.parented[i] {
                return Some(i);
            }
            i = i + 1;
        }
        None
    }

    /// The invariant of a graph holds of its view.
    pub proof fn lemma_view_wf(&self)
        requires
            self.wf(),
        ensures
            self@.wf(),
    {
    }

    /// The number of children of node `n`.
    pub fn child_count(&self, n: usize) -> (r: usize)
        requires
            self.wf(),
            n < self@.nodes.len(),
        ensures
            r == self@.children[n as int].len(),
    {
        self.edges[n].len()
    }

    /// The `j`-th child of node `n`.
    pub fn child(&self, n: usize, j: usize) -> (r: usize)
        requires
            self.wf(),
            n < self@.nodes.len(),
            j < self@.children[n as int].len(),
        ensures
            r == self@.children[n as int][j as int],
    {
        self.edges[n][j]
    }
}

} // verus!
