//! The traversal driver and the model of what it computes.
use vstd::prelude::*;
use crate::error::{bail, ErrorType, PeelError};
use crate::graph::{GraphView, Peel};
use crate::parser::{Needed, ParseOutcome, Parsable};

verus! {

/// How a traversal ended.
#[derive(Debug, Clone, PartialEq, Eq)]
pub enum Status {
    /// A leaf was reached, or no child matched.
    Completed,
    /// A parser needed more bytes than were left.
    Incomplete(Needed),
    /// The traversal was cut short: no root, an unknown start node, the depth bound, or
    /// a fatal parser outcome.
    Aborted(PeelError),
}

/// What a traversal hands back.
#[derive(Debug, Clone, PartialEq, Eq)]
pub struct TraversalReport<R> {
    /// The values produced, after those the traversal started with.
    pub result: Vec<R>,
    /// How many bytes of the input were consumed; the rest is left.
    pub consumed: usize,
    /// How the traversal ended.
    pub status: Status,
}

/// How a traversal ends, in the model.
pub enum Stop {
    Completed,
    Incomplete(Needed),
    Aborted(ErrorType),
    Fatal(Seq<char>),
}

/// The end of a traversal in the model: the values, the bytes consumed, how it
/// stopped, the final state, and the number of bytes each appended value consumed.
pub struct Walk<R, S> {
    pub result: Seq<R>,
    pub consumed: nat,
    pub stop: Stop,
    pub state: S,
    pub steps: Seq<nat>,
}

/// The outcome of probing the children of a node.
pub enum Probe<R, S> {
    /// This child matched, consuming this many bytes and producing this value.
    Found(usize, nat, R, S),
    /// No child matched; the first most specific hint of those that asked for more bytes.
    Exhausted(Option<Needed>, S),
    /// A child failed fatally.
    Failed(Seq<char>, S),
}

/// Keeps the first hint, unless a later one gives a count where it gives none.
pub open spec fn keep_hint(hint: Option<Needed>, n: Needed) -> Option<Needed> {
    match hint {
        None => Some(n),
        Some(Needed::Unknown) => match n {
            Needed::Size(_) => Some(n),
            Needed::Unknown => hint,
        },
        Some(Needed::Size(_)) => hint,
    }
}

/// Probes `kids[i..]` in order on `input`, threading the state through every call.
pub open spec fn probe<P: Parsable<R, V, S>, R, V, S>(
    g: GraphView<P>,
    kids: Seq<usize>,
    i: int,
    input: Seq<u8>,
    prior: Seq<R>,
    state: S,
    hint: Option<Needed>,
) -> Probe<R, S>
    decreases kids.len() - i,
{
    if i < 0 || i >= kids.len() {
        Probe::Exhausted(hint, state)
    } else {
        let (o, s) = g.nodes[kids[i] as int].spec_parse(input, prior, state);
        match o {
            ParseOutcome::Done(c, r) => Probe::Found(kids[i], c as nat, r, s),
            ParseOutcome::Incomplete(n) => probe(g, kids, i + 1, input, prior, s, keep_hint(hint, n)),
            ParseOutcome::Mismatch(_, _) => probe(g, kids, i + 1, input, prior, s, hint),
            ParseOutcome::Fatal(m) => Probe::Failed(m@, s),
        }
    }
}

/// Continues a traversal at node `current`, with `count` successful invocations so far.
pub open spec fn walk<P: Parsable<R, V, S>, R, V, S>(
    g: GraphView<P>,
    current: usize,
    input: Seq<u8>,
    pos: nat,
    result: Seq<R>,
    state: S,
    count: nat,
    steps: Seq<nat>,
) -> Walk<R, S>
    decreases g.max_depth - count,
{
    if count >= g.max_depth {
        Walk { result, consumed: pos, stop: Stop::Aborted(ErrorType::DepthExceeded), state, steps }
    } else {
        match probe(g, g.children[current as int], 0, input.subrange(pos as int, input.len() as int), result, state, None) {
            Probe::Found(child, c, r, s) => walk(g, child, input, pos + c, result.push(r), s, count + 1, steps.push(c)),
            Probe::Exhausted(None, s) => Walk { result, consumed: pos, stop: Stop::Completed, state: s, steps },
            Probe::Exhausted(Some(n), s) => Walk { result, consumed: pos, stop: Stop::Incomplete(n), state: s, steps },
            Probe::Failed(m, s) => Walk { result, consumed: pos, stop: Stop::Fatal(m), state: s, steps },
        }
    }
}

/// A traversal that starts at node `start`.
pub open spec fn run_from<P: Parsable<R, V, S>, R, V, S>(
    g: GraphView<P>,
    start: usize,
    input: Seq<u8>,
    result: Seq<R>,
    state: S,
) -> Walk<R, S> {
    if start >= g.nodes.len() {
        Walk { result, consumed: 0, stop: Stop::Aborted(ErrorType::UnknownNode), state, steps: seq![] }
    } else {
        let (o, s) = g.nodes[start as int].spec_parse(input, result, state);
        match o {
            ParseOutcome::Done(c, r) => walk(g, start, input, c as nat, result.push(r), s, 1, seq![c as nat]),
            ParseOutcome::Incomplete(n) => Walk { result, consumed: 0, stop: Stop::Incomplete(n), state: s, steps: seq![] },
            ParseOutcome::Mismatch(_, _) => Walk { result, consumed: 0, stop: Stop::Completed, state: s, steps: seq![] },
            ParseOutcome::Fatal(m) => Walk { result, consumed: 0, stop: Stop::Fatal(m@), state: s, steps: seq![] },
        }
    }
}

/// A traversal that starts at the graph's first root.
pub open spec fn run<P: Parsable<R, V, S>, R, V, S>(
    g: GraphView<P>,
    input: Seq<u8>,
    result: Seq<R>,
    state: S,
) -> Walk<R, S> {
    match g.first_root() {
        None => Walk { result, consumed: 0, stop: Stop::Aborted(ErrorType::NoTreeRoot), state, steps: seq![] },
        Some(r) => run_from(g, r, input, result, state),
    }
}

/// The status that stands for a stop of the model.
pub open spec fn status_is(s: Status, stop: Stop) -> bool {
    match stop {
        Stop::Completed => s == Status::Completed,
        Stop::Incomplete(n) => s == Status::Incomplete(n),
        Stop::Aborted(code) => s is Aborted && s->Aborted_0.code == code && code != ErrorType::Fatal,
        Stop::Fatal(m) => s is Aborted && s->Aborted_0.code == ErrorType::Fatal
            && s->Aborted_0.description@ == m,
    }
}

/// The report and the final state are those of the model.
pub open spec fn reports<R, S>(rep: TraversalReport<R>, state: S, w: Walk<R, S>) -> bool {
    &&& rep.result@ == w.result
    &&& rep.consumed == w.consumed
    &&& status_is(rep.status, w.stop)
    &&& state == w.state
}

impl<R> TraversalReport<R> {
    /// The part of `input` that the traversal left unconsumed.
    pub fn left_input<'a>(&self, input: &'a [u8]) -> (r: &'a [u8])
        requires
            self.consumed <= input@.len(),
        ensures
            r@ == input@.subrange(self.consumed as int, input@.len() as int),
    {
        &input[self.consumed..input.len()]
    }
}


/// The outcome of probing children, as the driver holds it.
enum Probed<R> {
    Found(usize, usize, R),
    Exhausted(Option<Needed>),
    Failed(String),
}

spec fn probed_is<R, S>(p: Probed<R>, state: S, q: Probe<R, S>) -> bool {
    match q {
        Probe::Found(c, k, r, s) => p is Found && p->Found_0 == c && p->Found_1 as nat == k
            && p->Found_2 == r && state == s,
        Probe::Exhausted(h, s) => p is Exhausted && p->Exhausted_0 == h && state == s,
        Probe::Failed(m, s) => p is Failed && p->Failed_0@ == m && state == s,
    }
}

fn next_hint(hint: Option<Needed>, n: Needed) -> (r: Option<Needed>)
    ensures
        r == keep_hint(hint, n),
{
    match hint {
        None => Some(n),
        Some(Needed::Unknown) => match n {
            Needed::Size(_) => Some(n),
            Needed::Unknown => hint,
        },
        Some(Needed::Size(_)) => hint,
    }
}

fn report<R>(result: Vec<R>, consumed: usize, status: Status) -> (rep: TraversalReport<R>)
    ensures
        rep.result == result,
        rep.consumed == consumed,
        rep.status == status,
{
    TraversalReport { result, consumed, status }
}

proof fn lemma_walk_unfold<P: Parsable<R, V, S>, R, V, S>(
    g: GraphView<P>, current: usize, input: Seq<u8>, pos: nat, result: Seq<R>, state: S, count: nat, steps: Seq<nat>,
)
    ensures
        count >= g.max_depth ==> walk(g, current, input, pos, result, state, count, steps)
            == (Walk { result, consumed: pos, stop: Stop::Aborted(ErrorType::DepthExceeded), state, steps }),
        count < g.max_depth ==> walk(g, current, input, pos, result, state, count, steps) == match probe(
            g, g.children[current as int], 0, input.subrange(pos as int, input.len() as int), result, state, None,
        ) {
            Probe::Found(child, c, r, s) => walk(g, child, input, pos + c, result.push(r), s, count + 1, steps.push(c)),
            Probe::Exhausted(None, s) => Walk { result, consumed: pos, stop: Stop::Completed, state: s, steps },
            Probe::Exhausted(Some(n), s) => Walk { result, consumed: pos, stop: Stop::Incomplete(n), state: s, steps },
            Probe::Failed(m, s) => Walk { result, consumed: pos, stop: Stop::Fatal(m), state: s, steps },
        },
{
}

impl<P> Peel<P> {
    /// Probes the children of `current` in the order of their edges, until one matches
    /// or fails fatally.
    fn probe_children<R, V, S>(&self, current: usize, input: &[u8], prior: &Vec<R>, state: &mut S) -> (r: Probed<R>)
        where
            P: Parsable<R, V, S>,
        requires
            self.wf(),
            current < self@.nodes.len(),
        ensures
            probed_is(r, *final(state), probe(self@, self@.children[current as int], 0, input@, prior@, *old(state), None)),
            r is Found ==> r->Found_1 <= input@.len() && r->Found_0 < self@.nodes.len(),
    {
        proof { self.lemma_view_wf(); }
        let ghost kids = self@.children[current as int];
        let n = self.child_count(current);
        let mut hint: Option<Needed> = None;
        let mut j: usize = 0;
        while j < n
            invariant
                self.wf(),
                self@.wf(),
                current < self@.nodes.len(),
                kids == self@.children[current as int],
                n == kids.len(),
                j <= n,
                probe(self@, kids, j as int, input@, prior@, *state, hint)
                    == probe(self@, kids, 0, input@, prior@, *old(state), None),
            decreases n - j,
        {
            let c = self.child(current, j);
            let p = self.parser(c).unwrap();
            let ghost s0 = *state;
            let o = p.parse(input, prior, state);
            proof { p.lemma_parse_fits(input@, prior@, s0); }
            match o {
                ParseOutcome::Done(k, r) => {
                    return Probed::Found(c, k, r);
                },
                ParseOutcome::Incomplete(nd) => {
                    hint = next_hint(hint, nd);
                },
                ParseOutcome::Mismatch(_, _) => {},
                ParseOutcome::Fatal(m) => {
                    return Probed::Failed(m);
                },
            }
            j = j + 1;
        }
        Probed::Exhausted(hint)
    }

    /// Walks the graph over `input` from node `start`, appending to `initial` the value of
    /// each parser that matches: first the start node's, then, again and again, that of
    /// the first child in edge order that matches what is left of the input.
    ///
    /// The walk completes when the start node, or every child of the current node, does
    /// not match; it is incomplete when some of them asked for more bytes and none
    /// matched; it is aborted when `start` names no node, when a parser fails fatally, or
    /// once the number of values it appended reaches the depth bound.
    pub fn traverse_from<R, V, S>(&self, start: usize, input: &[u8], initial: Vec<R>, state: &mut S) -> (rep: TraversalReport<R>)
        where
            P: Parsable<R, V, S>,
        requires
            self.wf(),
        ensures
            reports(rep, *final(state), run_from(self@, start, input@, initial@, *old(state))),
            rep.consumed <= input@.len(),
    {
        proof { self.lemma_view_wf(); }
        let ghost goal = run_from(self@, start, input@, initial@, *old(state));
        let mut result = initial;
        let p = match self.parser(start) {
            Some(p) => p,
            None => {
                return report(result, 0, Status::Aborted(bail(ErrorType::UnknownNode, "no node with this handle")));
            },
        };
        let ghost s0 = *state;
        let o = p.parse(input, &result, state);
        proof { p.lemma_parse_fits(input@, result@, s0); }
        let mut pos: usize = 0;
        match o {
            ParseOutcome::Done(k, r) => {
                result.push(r);
                pos = k;
            },
            ParseOutcome::Incomplete(n) => {
                return report(result, 0, Status::Incomplete(n));
            },
            ParseOutcome::Mismatch(_, _) => {
                return report(result, 0, Status::Completed);
            },
            ParseOutcome::Fatal(m) => {
                return report(result, 0, Status::Aborted(PeelError { code: ErrorType::Fatal, description: m }));
            },
        }
        let len = input.len();
        let mut current = start;
        let mut count: usize = 1;
        let ghost mut steps: Seq<nat> = seq![pos as nat];
        let max = self.max_depth();
        loop
            invariant
                self.wf(),
                self@.wf(),
                goal == run_from(self@, start, input@, initial@, *old(state)),
                max == self@.max_depth,
                len == input@.len(),
                current < self@.nodes.len(),
                pos <= input@.len(),
                1 <= count <= max,
                walk(self@, current, input@, pos as nat, result@, *state, count as nat, steps) == goal,
            decreases max - count,
        {
            proof { lemma_walk_unfold(self@, current, input@, pos as nat, result@, *state, count as nat, steps); }
            if count >= max {
                return report(result, pos, Status::Aborted(bail(ErrorType::DepthExceeded, "depth bound reached")));
            }
            let halves = input.split_at(pos);
            let rest = halves.1;
            match self.probe_children(current, rest, &result, state) {
                Probed::Found(c, k, r) => {
                    result.push(r);
                    pos = pos + k;
                    current = c;
                    count = count + 1;
                    proof { steps = steps.push(k as nat); }
                },
                Probed::Exhausted(None) => {
                    return report(result, pos, Status::Completed);
                },
                Probed::Exhausted(Some(n)) => {
                    return report(result, pos, Status::Incomplete(n));
                },
                Probed::Failed(m) => {
                    return report(result, pos, Status::Aborted(PeelError { code: ErrorType::Fatal, description: m }));
                },
            }
        }
    }

    /// Walks the graph over `input` from its first root, as `traverse_from` does; with no
    /// root the traversal is aborted at once.
    pub fn traverse<R, V, S>(&self, input: &[u8], result: Vec<R>, state: &mut S) -> (rep: TraversalReport<R>)
        where
            P: Parsable<R, V, S>,
        requires
            self.wf(),
        ensures
            reports(rep, *final(state), run(self@, input@, result@, *old(state))),
            rep.consumed <= input@.len(),
    {
        match self.first_root() {
            None => report(result, 0, Status::Aborted(bail(ErrorType::NoTreeRoot, "the graph has no root"))),
            Some(r) => self.traverse_from(r, input, result, state),
        }
    }
}

} // verus!
