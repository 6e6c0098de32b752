//! Properties of graphs and traversals, proved over the model.
use vstd::prelude::*;
use crate::error::ErrorType;
use crate::graph::{GraphView, handles};
use crate::parser::{Needed, ParseOutcome, Parsable};
use crate::traverse::{Probe, Stop, Walk, probe, run, run_from, walk};

verus! {

/// The sum of a sequence of byte counts.
pub open spec fn total(s: Seq<nat>) -> nat
    decreases s.len(),
{
    if s.len() == 0 {
        0
    } else {
        total(s.drop_last()) + s.last()
    }
}

proof fn lemma_total_push(s: Seq<nat>, c: nat)
    ensures
        total(s.push(c)) == total(s) + c,
{
    assert(s.push(c).drop_last() =~= s);
}

/// A child found by probing is a node of the graph, and consumes no more than the input.
proof fn lemma_probe_found<P: Parsable<R, V, S>, R, V, S>(
    g: GraphView<P>,
    kids: Seq<usize>,
    i: int,
    input: Seq<u8>,
    prior: Seq<R>,
    state: S,
    hint: Option<Needed>,
)
    requires
        g.wf(),
        forall|j: int| 0 <= j < kids.len() ==> kids[j] < g.nodes.len(),
    ensures
        probe(g, kids, i, input, prior, state, hint) matches Probe::Found(c, k, _, _) ==> c < g.nodes.len() && k <= input.len(),
    decreases kids.len() - i,
{
    if 0 <= i < kids.len() {
        g.nodes[kids[i] as int].lemma_parse_fits(input, prior, state);
        let (o, s) = g.nodes[kids[i] as int].spec_parse(input, prior, state);
        match o {
            ParseOutcome::Incomplete(n) => lemma_probe_found(g, kids, i + 1, input, prior, s, crate::traverse::keep_hint(hint, n)),
            ParseOutcome::Mismatch(_, _) => lemma_probe_found(g, kids, i + 1, input, prior, s, hint),
            _ => {},
        }
    }
}

/// What a walk keeps and adds: it extends the values it started with by one value for
/// each step, takes no more steps than the depth bound leaves, and consumes what its
/// steps consume, within the input.
proof fn lemma_walk<P: Parsable<R, V, S>, R, V, S>(
    g: GraphView<P>,
    current: usize,
    input: Seq<u8>,
    pos: nat,
    result: Seq<R>,
    state: S,
    count: nat,
    steps: Seq<nat>,
)
    requires
        g.wf(),
        current < g.nodes.len(),
        pos <= input.len(),
        pos == total(steps),
        count <= g.max_depth,
    ensures
        ({
            let w = walk(g, current, input, pos, result, state, count, steps);
            &&& w.result.len() - result.len() == w.steps.len() - steps.len()
            &&& w.result.len() <= result.len() + (g.max_depth - count)
            &&& w.result.subrange(0, result.len() as int) == result
            &&& w.steps.len() >= steps.len()
            &&& w.consumed == total(w.steps)
            &&& pos <= w.consumed <= input.len()
        }),
    decreases g.max_depth - count,
{
    if count < g.max_depth {
        let rest = input.subrange(pos as int, input.len() as int);
        let kids = g.children[current as int];
        lemma_probe_found(g, kids, 0, rest, result, state, None);
        match probe(g, kids, 0, rest, result, state, None) {
            Probe::Found(child, c, r, s) => {
                lemma_total_push(steps, c);
                lemma_walk(g, child, input, pos + c, result.push(r), s, count + 1, steps.push(c));
                let w = walk(g, child, input, pos + c, result.push(r), s, count + 1, steps.push(c));
                assert(w.result.subrange(0, result.len() as int) =~= w.result.subrange(0, result.len() + 1int).subrange(0, result.len() as int));
            },
            _ => {
                assert(result.subrange(0, result.len() as int) =~= result);
            },
        }
    } else {
        assert(result.subrange(0, result.len() as int) =~= result);
    }
}

/// What a traversal keeps and adds, from any start node.
proof fn lemma_run_from<P: Parsable<R, V, S>, R, V, S>(
    g: GraphView<P>,
    start: usize,
    input: Seq<u8>,
    result: Seq<R>,
    state: S,
)
    requires
        g.wf(),
    ensures
        ({
            let w = run_from(g, start, input, result, state);
            &&& w.result.len() - result.len() == w.steps.len()
            &&& w.result.len() <= result.len() + g.max_depth
            &&& w.result.subrange(0, result.len() as int) == result
            &&& w.consumed == total(w.steps)
            &&& w.consumed <= input.len()
        }),
{
    if start < g.nodes.len() {
        g.nodes[start as int].lemma_parse_fits(input, result, state);
        let (o, s) = g.nodes[start as int].spec_parse(input, result, state);
        match o {
            ParseOutcome::Done(c, r) => {
                lemma_total_push(seq![], c as nat);
                assert(seq![c as nat] =~= Seq::<nat>::empty().push(c as nat));
                lemma_walk(g, start, input, c as nat, result.push(r), s, 1, seq![c as nat]);
                let w = walk(g, start, input, c as nat, result.push(r), s, 1, seq![c as nat]);
                assert(w.result.subrange(0, result.len() as int) =~= w.result.subrange(0, result.len() + 1int).subrange(0, result.len() as int));
            },
            _ => {
                assert(result.subrange(0, result.len() as int) =~= result);
            },
        }
    } else {
        assert(result.subrange(0, result.len() as int) =~= result);
    }
}

/// What a traversal keeps and adds, from the first root.
proof fn lemma_run<P: Parsable<R, V, S>, R, V, S>(g: GraphView<P>, input: Seq<u8>, result: Seq<R>, state: S)
    requires
        g.wf(),
    ensures
        ({
            let w = run(g, input, result, state);
            &&& w.result.len() - result.len() == w.steps.len()
            &&& w.result.len() <= result.len() + g.max_depth
            &&& w.result.subrange(0, result.len() as int) == result
            &&& w.consumed == total(w.steps)
            &&& w.consumed <= input.len()
        }),
{
    match g.first_root() {
        None => {
            assert(result.subrange(0, result.len() as int) =~= result);
        },
        Some(r) => lemma_run_from(g, r, input, result, state),
    }
}

/// A traversal that starts with no values produces at most `max_depth` of them.
pub proof fn lemma_result_within_depth<P: Parsable<R, V, S>, R, V, S>(g: GraphView<P>, input: Seq<u8>, state: S)
    requires
        g.wf(),
    ensures
        run(g, input, Seq::empty(), state).result.len() <= g.max_depth,
{
    lemma_run(g, input, Seq::empty(), state);
}

/// A traversal consumes a prefix of the input: the bytes each parser consumed, one
/// after the other, make up that prefix, and what is left is the rest of the input.
pub proof fn lemma_consumed_prefix<P: Parsable<R, V, S>, R, V, S>(
    g: GraphView<P>,
    input: Seq<u8>,
    result: Seq<R>,
    state: S,
)
    requires
        g.wf(),
    ensures
        ({
            let w = run(g, input, result, state);
            &&& w.steps.len() == w.result.len() - result.len()
            &&& w.consumed == total(w.steps)
            &&& w.consumed <= input.len()
            &&& input.subrange(0, w.consumed as int) + input.subrange(w.consumed as int, input.len() as int) == input
        }),
{
    lemma_run(g, input, result, state);
    let w = run(g, input, result, state);
    assert(input.subrange(0, w.consumed as int) + input.subrange(w.consumed as int, input.len() as int) =~= input);
}


/// Two reports agree on how a traversal ended.
pub open spec fn same_status(a: crate::traverse::Status, b: crate::traverse::Status) -> bool {
    match a {
        crate::traverse::Status::Aborted(e) => b is Aborted && e.code == b->Aborted_0.code
            && (e.code == ErrorType::Fatal ==> e.description@ == b->Aborted_0.description@),
        _ => a == b,
    }
}

/// Traversing the same graph over the same input, from the same values and the same
/// state, twice gives the same values, the same consumed length, the same way of ending
/// and the same final state.
pub proof fn lemma_deterministic<P: Parsable<R, V, S>, R, V, S>(
    g: GraphView<P>,
    input: Seq<u8>,
    result: Seq<R>,
    state: S,
    a: crate::traverse::TraversalReport<R>,
    a_state: S,
    b: crate::traverse::TraversalReport<R>,
    b_state: S,
)
    requires
        crate::traverse::reports(a, a_state, run(g, input, result, state)),
        crate::traverse::reports(b, b_state, run(g, input, result, state)),
    ensures
        a.result@ == b.result@,
        a.consumed == b.consumed,
        same_status(a.status, b.status),
        a_state == b_state,
{
    match run(g, input, result, state).stop {
        Stop::Completed => {},
        Stop::Incomplete(_) => {},
        Stop::Aborted(_) => {},
        Stop::Fatal(_) => {},
    }
}

/// When a node's first child matches what is left of the input, the next value of the
/// traversal is that child's, whatever its later siblings would do.
pub proof fn lemma_first_child_wins<P: Parsable<R, V, S>, R, V, S>(
    g: GraphView<P>,
    current: usize,
    input: Seq<u8>,
    pos: nat,
    result: Seq<R>,
    state: S,
    count: nat,
    steps: Seq<nat>,
)
    requires
        g.wf(),
        current < g.nodes.len(),
        pos <= input.len(),
        pos == total(steps),
        count < g.max_depth,
        g.children[current as int].len() >= 1,
        g.nodes[g.children[current as int][0] as int].spec_parse(
            input.subrange(pos as int, input.len() as int), result, state).0 is Done,
    ensures
        walk(g, current, input, pos, result, state, count, steps).result.len() > result.len(),
        walk(g, current, input, pos, result, state, count, steps).result[result.len() as int]
            == g.nodes[g.children[current as int][0] as int].spec_parse(
                input.subrange(pos as int, input.len() as int), result, state).0->Done_1,
{
    let rest = input.subrange(pos as int, input.len() as int);
    let kids = g.children[current as int];
    let (o, s) = g.nodes[kids[0] as int].spec_parse(rest, result, state);
    g.nodes[kids[0] as int].lemma_parse_fits(rest, result, state);
    let c = o->Done_0 as nat;
    let r = o->Done_1;
    assert(probe(g, kids, 0, rest, result, state, None) == Probe::<R, S>::Found(kids[0], c, r, s));
    lemma_total_push(steps, c);
    lemma_walk(g, kids[0], input, pos + c, result.push(r), s, count + 1, steps.push(c));
    let w = walk(g, kids[0], input, pos + c, result.push(r), s, count + 1, steps.push(c));
    assert(w.result.subrange(0, result.len() + 1int)[result.len() as int] == r);
}

/// Children that all fail to match and leave the state as it is are passed over: probing
/// them, in any order, ends with the hint and the state it started with.
pub proof fn lemma_mismatches_in_any_order<P: Parsable<R, V, S>, R, V, S>(
    g: GraphView<P>,
    kids: Seq<usize>,
    others: Seq<usize>,
    input: Seq<u8>,
    prior: Seq<R>,
    state: S,
    hint: Option<Needed>,
)
    requires
        forall|j: int| 0 <= j < kids.len() ==> ({
            let (o, s) = #[trigger] g.nodes[kids[j] as int].spec_parse(input, prior, state);
            o is Mismatch && s == state
        }),
        others.to_multiset() == kids.to_multiset(),
    ensures
        probe(g, kids, 0, input, prior, state, hint) == probe(g, others, 0, input, prior, state, hint),
        probe(g, kids, 0, input, prior, state, hint) == Probe::<R, S>::Exhausted(hint, state),
{
    assert forall|j: int| 0 <= j < others.len() implies ({
        let (o, s) = #[trigger] g.nodes[others[j] as int].spec_parse(input, prior, state);
        o is Mismatch && s == state
    }) by {
        others.to_multiset_ensures();
        kids.to_multiset_ensures();
        assert(others.to_multiset().count(others[j]) > 0);
        assert(kids.contains(others[j]));
    }
    lemma_mismatches_pass(g, kids, 0, input, prior, state, hint);
    lemma_mismatches_pass(g, others, 0, input, prior, state, hint);
}

proof fn lemma_mismatches_pass<P: Parsable<R, V, S>, R, V, S>(
    g: GraphView<P>,
    kids: Seq<usize>,
    i: int,
    input: Seq<u8>,
    prior: Seq<R>,
    state: S,
    hint: Option<Needed>,
)
    requires
        0 <= i,
        forall|j: int| 0 <= j < kids.len() ==> ({
            let (o, s) = #[trigger] g.nodes[kids[j] as int].spec_parse(input, prior, state);
            o is Mismatch && s == state
        }),
    ensures
        probe(g, kids, i, input, prior, state, hint) == Probe::<R, S>::Exhausted(hint, state),
    decreases kids.len() - i,
{
    if i < kids.len() {
        let _ = g.nodes[kids[i] as int].spec_parse(input, prior, state);
        lemma_mismatches_pass(g, kids, i + 1, input, prior, state, hint);
    }
}

/// The handles that `node_indices` lists are those of the nodes, each exactly once.
pub proof fn lemma_indices_once(n: nat)
    requires
        n <= usize::MAX + 1,
    ensures
        handles(n).no_duplicates(),
        forall|id: usize| (id as nat) < n <==> #[trigger] handles(n).contains(id),
{
    let s = handles(n);
    assert forall|id: usize| (id as nat) < n <==> #[trigger] s.contains(id) by {
        if (id as nat) < n {
            assert(s[id as int] == id);
        }
    }
}

/// Adding the same edge twice leaves the graph as adding it once, with exactly one edge
/// between the two nodes.
pub proof fn lemma_link_twice<P>(g: GraphView<P>, a: usize, b: usize)
    requires
        g.wf(),
        a < g.nodes.len(),
        b < g.nodes.len(),
    ensures
        g.linked(a, b).linked(a, b) == g.linked(a, b),
        g.linked(a, b).children[a as int].contains(b),
        g.linked(a, b).children[a as int].no_duplicates(),
{
    let l = g.linked(a, b);
    let row = g.children[a as int];
    assert(g.children[a as int].no_duplicates());
    if !row.contains(b) {
        assert(row.push(b)[row.len() as int] == b);
        assert forall|i: int, j: int| 0 <= i < row.push(b).len() && 0 <= j < row.push(b).len() && i != j
            implies row.push(b)[i] != row.push(b)[j] by {
            if i < row.len() && j < row.len() {
            } else if i < row.len() {
                assert(row.contains(row[i]));
            } else {
                assert(row.contains(row[j]));
            }
        }
    }
    assert(l.children[a as int].contains(b));
    assert(l.linked(a, b).children =~= l.children);
}

/// Traversing a graph with no nodes aborts for want of a root, with the values and the
/// input as they were.
pub proof fn lemma_empty_graph<P: Parsable<R, V, S>, R, V, S>(g: GraphView<P>, input: Seq<u8>, result: Seq<R>, state: S)
    requires
        g.nodes.len() == 0,
    ensures
        run(g, input, result, state) == (Walk { result, consumed: 0, stop: Stop::Aborted(ErrorType::NoTreeRoot), state, steps: seq![] }),
{
}

/// With a depth bound of one, a traversal whose start node matches ends with exactly
/// that one value added.
pub proof fn lemma_depth_one<P: Parsable<R, V, S>, R, V, S>(
    g: GraphView<P>,
    start: usize,
    input: Seq<u8>,
    result: Seq<R>,
    state: S,
)
    requires
        g.wf(),
        g.max_depth == 1,
        start < g.nodes.len(),
        g.nodes[start as int].spec_parse(input, result, state).0 is Done,
    ensures
        run_from(g, start, input, result, state).result
            == result.push(g.nodes[start as int].spec_parse(input, result, state).0->Done_1),
        run_from(g, start, input, result, state).stop == Stop::Aborted(ErrorType::DepthExceeded),
{
}


/// A parser that does not match any input and leaves every state as it is.
pub open spec fn never_matches<P: Parsable<R, V, S>, R, V, S>(x: P) -> bool {
    forall|input: Seq<u8>, prior: Seq<R>, state: S| ({
        let (o, s) = #[trigger] x.spec_parse(input, prior, state);
        o is Mismatch && s == state
    })
}

proof fn lemma_probe_with_new_child<P: Parsable<R, V, S>, R, V, S>(
    g: GraphView<P>,
    parent: usize,
    x: P,
    kids: Seq<usize>,
    i: int,
    input: Seq<u8>,
    prior: Seq<R>,
    state: S,
    hint: Option<Needed>,
)
    requires
        g.wf(),
        parent < g.nodes.len(),
        g.nodes.len() < usize::MAX,
        never_matches::<P, R, V, S>(x),
        0 <= i <= kids.len(),
        forall|j: int| 0 <= j < kids.len() ==> kids[j] < g.nodes.len(),
    ensures
        probe(g.with_new_child(parent, x), kids.push(g.nodes.len() as usize), i, input, prior, state, hint)
            == probe(g, kids, i, input, prior, state, hint),
    decreases kids.len() - i,
{
    let h = g.with_new_child(parent, x);
    let more = kids.push(g.nodes.len() as usize);
    if i < kids.len() {
        assert(more[i] == kids[i]);
        assert(h.nodes[kids[i] as int] == g.nodes[kids[i] as int]);
        let (o, s) = g.nodes[kids[i] as int].spec_parse(input, prior, state);
        match o {
            ParseOutcome::Incomplete(n) => lemma_probe_with_new_child(g, parent, x, kids, i + 1, input, prior, s, crate::traverse::keep_hint(hint, n)),
            ParseOutcome::Mismatch(_, _) => lemma_probe_with_new_child(g, parent, x, kids, i + 1, input, prior, s, hint),
            _ => {},
        }
    } else {
        assert(h.nodes[more[i] as int] == x);
        let _ = x.spec_parse(input, prior, state);
        assert(probe(h, more, i + 1, input, prior, state, hint) == Probe::<R, S>::Exhausted(hint, state));
    }
}

proof fn lemma_walk_with_new_child<P: Parsable<R, V, S>, R, V, S>(
    g: GraphView<P>,
    parent: usize,
    x: P,
    current: usize,
    input: Seq<u8>,
    pos: nat,
    result: Seq<R>,
    state: S,
    count: nat,
    steps: Seq<nat>,
)
    requires
        g.wf(),
        parent < g.nodes.len(),
        g.nodes.len() < usize::MAX,
        never_matches::<P, R, V, S>(x),
        current < g.nodes.len(),
    ensures
        walk(g.with_new_child(parent, x), current, input, pos, result, state, count, steps)
            == walk(g, current, input, pos, result, state, count, steps),
    decreases g.max_depth - count,
{
    let h = g.with_new_child(parent, x);
    if count < g.max_depth {
        let rest = input.subrange(pos as int, input.len() as int);
        let kids = g.children[current as int];
        if current == parent {
            assert(h.children[current as int] == kids.push(g.nodes.len() as usize));
            lemma_probe_with_new_child(g, parent, x, kids, 0, rest, result, state, None);
        } else {
            assert(h.children[current as int] == kids);
            lemma_probe_same_nodes(g, h, kids, 0, rest, result, state, None);
        }
        lemma_probe_found(g, kids, 0, rest, result, state, None);
        match probe(g, kids, 0, rest, result, state, None) {
            Probe::Found(child, c, r, s) => {
                lemma_walk_with_new_child(g, parent, x, child, input, pos + c, result.push(r), s, count + 1, steps.push(c));
            },
            _ => {},
        }
    }
}

proof fn lemma_probe_same_nodes<P: Parsable<R, V, S>, R, V, S>(
    g: GraphView<P>,
    h: GraphView<P>,
    kids: Seq<usize>,
    i: int,
    input: Seq<u8>,
    prior: Seq<R>,
    state: S,
    hint: Option<Needed>,
)
    requires
        forall|j: int| 0 <= j < kids.len() ==> kids[j] < g.nodes.len(),
        g.nodes.len() <= h.nodes.len(),
        forall|k: int| 0 <= k < g.nodes.len() ==> h.nodes[k] == g.nodes[k],
    ensures
        probe(h, kids, i, input, prior, state, hint) == probe(g, kids, i, input, prior, state, hint),
    decreases kids.len() - i,
{
    if 0 <= i < kids.len() {
        assert(h.nodes[kids[i] as int] == g.nodes[kids[i] as int]);
        let (o, s) = g.nodes[kids[i] as int].spec_parse(input, prior, state);
        match o {
            ParseOutcome::Incomplete(n) => lemma_probe_same_nodes(g, h, kids, i + 1, input, prior, s, crate::traverse::keep_hint(hint, n)),
            ParseOutcome::Mismatch(_, _) => lemma_probe_same_nodes(g, h, kids, i + 1, input, prior, s, hint),
            _ => {},
        }
    }
}

/// Adding a child that never matches, and leaves the state as it is, changes no
/// traversal that starts at a node that was already there.
pub proof fn lemma_never_matching_child<P: Parsable<R, V, S>, R, V, S>(
    g: GraphView<P>,
    parent: usize,
    x: P,
    start: usize,
    input: Seq<u8>,
    result: Seq<R>,
    state: S,
)
    requires
        g.wf(),
        parent < g.nodes.len(),
        g.nodes.len() < usize::MAX,
        never_matches::<P, R, V, S>(x),
        start < g.nodes.len(),
    ensures
        run_from(g.with_new_child(parent, x), start, input, result, state) == run_from(g, start, input, result, state),
{
    let h = g.with_new_child(parent, x);
    assert(h.nodes[start as int] == g.nodes[start as int]);
    let (o, s) = g.nodes[start as int].spec_parse(input, result, state);
    if o is Done {
        lemma_walk_with_new_child(g, parent, x, start, input, o->Done_0 as nat, result.push(o->Done_1), s, 1, seq![o->Done_0 as nat]);
    }
}


/// `h` is `g` with the children of node `n` put in another order.
pub open spec fn reordered_at<P>(g: GraphView<P>, h: GraphView<P>, n: usize) -> bool {
    &&& h.nodes == g.nodes
    &&& h.max_depth == g.max_depth
    &&& h.children.len() == g.children.len()
    &&& n < g.children.len()
    &&& h.children[n as int].to_multiset() == g.children[n as int].to_multiset()
    &&& forall|m: int| 0 <= m < g.children.len() && m != n ==> h.children[m] == g.children[m]
}

proof fn lemma_walk_reordered<P: Parsable<R, V, S>, R, V, S>(
    g: GraphView<P>,
    h: GraphView<P>,
    n: usize,
    current: usize,
    input: Seq<u8>,
    pos: nat,
    result: Seq<R>,
    state: S,
    count: nat,
    steps: Seq<nat>,
)
    requires
        g.wf(),
        reordered_at(g, h, n),
        forall|j: int| 0 <= j < g.children[n as int].len() ==>
            never_matches::<P, R, V, S>(#[trigger] g.nodes[g.children[n as int][j] as int]),
        current < g.nodes.len(),
    ensures
        walk(h, current, input, pos, result, state, count, steps) == walk(g, current, input, pos, result, state, count, steps),
    decreases g.max_depth - count,
{
    if count < g.max_depth {
        let rest = input.subrange(pos as int, input.len() as int);
        let kids = g.children[current as int];
        if current == n {
            assert forall|j: int| 0 <= j < kids.len() implies ({
                let (o, s) = #[trigger] g.nodes[kids[j] as int].spec_parse(rest, result, state);
                o is Mismatch && s == state
            }) by {
                let x = g.nodes[kids[j] as int];
                assert(never_matches::<P, R, V, S>(x));
                let _ = x.spec_parse(rest, result, state);
            }
            lemma_mismatches_in_any_order(g, kids, h.children[n as int], rest, result, state, None);
            assert forall|j: int| 0 <= j < h.children[n as int].len() implies h.children[n as int][j] < g.nodes.len() by {
                let k = h.children[n as int][j];
                h.children[n as int].to_multiset_ensures();
                kids.to_multiset_ensures();
                assert(h.children[n as int].to_multiset().count(k) > 0);
                assert(kids.contains(k));
            }
            lemma_probe_same_nodes(g, h, h.children[n as int], 0, rest, result, state, None);
        } else {
            assert(h.children[current as int] == kids);
            lemma_probe_same_nodes(g, h, kids, 0, rest, result, state, None);
        }
        lemma_probe_found(g, kids, 0, rest, result, state, None);
        match probe(g, kids, 0, rest, result, state, None) {
            Probe::Found(child, c, r, s) => {
                lemma_walk_reordered(g, h, n, child, input, pos + c, result.push(r), s, count + 1, steps.push(c));
            },
            _ => {},
        }
    }
}

/// Putting the children of a node in another order, where none of them ever matches
/// and none changes the state, changes no traversal.
pub proof fn lemma_reordered_mismatching_children<P: Parsable<R, V, S>, R, V, S>(
    g: GraphView<P>,
    h: GraphView<P>,
    n: usize,
    start: usize,
    input: Seq<u8>,
    result: Seq<R>,
    state: S,
)
    requires
        g.wf(),
        reordered_at(g, h, n),
        forall|j: int| 0 <= j < g.children[n as int].len() ==>
            never_matches::<P, R, V, S>(#[trigger] g.nodes[g.children[n as int][j] as int]),
    ensures
        run_from(h, start, input, result, state) == run_from(g, start, input, result, state),
{
    if start < g.nodes.len() {
        let (o, s) = g.nodes[start as int].spec_parse(input, result, state);
        if o is Done {
            lemma_walk_reordered(g, h, n, start, input, o->Done_0 as nat, result.push(o->Done_1), s, 1, seq![o->Done_0 as nat]);
        }
    }
}


proof fn lemma_same_roots_from<P>(g: GraphView<P>, h: GraphView<P>, i: int)
    requires
        g.nodes.len() <= h.nodes.len(),
        forall|n: int| 0 <= n < g.nodes.len() ==> g.has_parent(n) == h.has_parent(n),
        forall|n: int| g.nodes.len() <= n < h.nodes.len() ==> h.has_parent(n),
    ensures
        h.root_from(i) == g.root_from(i),
    decreases h.nodes.len() - i,
{
    if 0 <= i < h.nodes.len() {
        lemma_same_roots_from(g, h, i + 1);
    }
}

/// Adding a child that never matches, and leaves the state as it is, changes no
/// traversal from the first root either.
pub proof fn lemma_never_matching_child_run<P: Parsable<R, V, S>, R, V, S>(
    g: GraphView<P>,
    parent: usize,
    x: P,
    input: Seq<u8>,
    result: Seq<R>,
    state: S,
)
    requires
        g.wf(),
        parent < g.nodes.len(),
        g.nodes.len() < usize::MAX,
        never_matches::<P, R, V, S>(x),
    ensures
        run(g.with_new_child(parent, x), input, result, state) == run(g, input, result, state),
{
    let h = g.with_new_child(parent, x);
    let new = g.nodes.len() as usize;
    assert forall|n: int| 0 <= n < g.nodes.len() implies g.has_parent(n) == h.has_parent(n) by {
        if g.has_parent(n) {
            let (m, j) = choose|m: int, j: int|
                0 <= m < g.children.len() && 0 <= j < g.children[m].len() && #[trigger] g.children[m][j] == n;
            assert(h.children[m][j] == n);
        }
        if h.has_parent(n) {
            let (m, j) = choose|m: int, j: int|
                0 <= m < h.children.len() && 0 <= j < h.children[m].len() && #[trigger] h.children[m][j] == n;
            if m == parent && j == g.children[m].len() {
                assert(h.children[m][j] == new);
            } else {
                assert(g.children[m][j] == n);
            }
        }
    }
    assert forall|n: int| g.nodes.len() <= n < h.nodes.len() implies h.has_parent(n) by {
        assert(h.children[parent as int][g.children[parent as int].len() as int] == new);
    }
    lemma_same_roots_from(g, h, 0);
    match g.first_root() {
        Some(r) => {
            lemma_root_from_is_root(g, 0);
            lemma_never_matching_child(g, parent, x, r, input, result, state);
        },
        None => {},
    }
}

proof fn lemma_root_from_is_root<P>(g: GraphView<P>, i: int)
    ensures
        g.root_from(i) matches Some(r) ==> (r as int) < g.nodes.len(),
    decreases g.nodes.len() - i,
{
    if 0 <= i < g.nodes.len() && !g.is_root(i) {
        lemma_root_from_is_root(g, i + 1);
    }
}

/// Putting the children of a node in another order, where none of them ever matches
/// and none changes the state, changes no traversal from the first root either.
pub proof fn lemma_reordered_mismatching_children_run<P: Parsable<R, V, S>, R, V, S>(
    g: GraphView<P>,
    h: GraphView<P>,
    n: usize,
    input: Seq<u8>,
    result: Seq<R>,
    state: S,
)
    requires
        g.wf(),
        reordered_at(g, h, n),
        forall|j: int| 0 <= j < g.children[n as int].len() ==>
            never_matches::<P, R, V, S>(#[trigger] g.nodes[g.children[n as int][j] as int]),
    ensures
        run(h, input, result, state) == run(g, input, result, state),
{
    let kids = g.children[n as int];
    let moved = h.children[n as int];
    kids.to_multiset_ensures();
    moved.to_multiset_ensures();
    assert forall|x: int| 0 <= x < g.nodes.len() implies g.has_parent(x) == h.has_parent(x) by {
        if g.has_parent(x) {
            let (m, j) = choose|m: int, j: int|
                0 <= m < g.children.len() && 0 <= j < g.children[m].len() && #[trigger] g.children[m][j] == x;
            if m == n {
                assert(kids.contains(kids[j]));
                assert(moved.to_multiset().count(kids[j]) > 0);
                let k = choose|k: int| 0 <= k < moved.len() && moved[k] == kids[j];
                assert(h.children[m][k] == x);
            } else {
                assert(h.children[m][j] == x);
            }
        }
        if h.has_parent(x) {
            let (m, j) = choose|m: int, j: int|
                0 <= m < h.children.len() && 0 <= j < h.children[m].len() && #[trigger] h.children[m][j] == x;
            if m == n {
                assert(moved.contains(moved[j]));
                assert(kids.to_multiset().count(moved[j]) > 0);
                let k = choose|k: int| 0 <= k < kids.len() && kids[k] == moved[j];
                assert(g.children[m][k] == x);
            } else {
                assert(g.children[m][j] == x);
            }
        }
    }
    lemma_same_roots_from(g, h, 0);
    match g.first_root() {
        Some(r) => lemma_reordered_mismatching_children(g, h, n, r, input, result, state),
        None => {},
    }
}

} // verus!
