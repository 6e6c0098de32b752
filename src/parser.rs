//! The contract that every parser of a graph satisfies.
use vstd::prelude::*;

verus! {

/// How many more bytes a parser needs.
#[derive(Debug, Clone, Copy, PartialEq, Eq, Structural)]
pub enum Needed {
    /// The parser cannot tell how many bytes it needs.
    Unknown,
    /// The parser needs this many bytes in all.
    Size(usize),
}

/// Why a parser does not apply to an input.
#[derive(Debug, Clone, Copy, PartialEq, Eq, Structural)]
pub enum MismatchKind {
    /// A literal tag was not found.
    Tag,
    /// A bit field held a value other than the expected one.
    TagBits,
    /// A field held a value that maps to nothing.
    MapOpt,
    /// A length field is inconsistent with the input.
    Length,
}

/// What one invocation of a parser gives.
#[derive(Debug, Clone, PartialEq, Eq)]
pub enum ParseOutcome<R> {
    /// The parser matched the first `consumed` bytes of the input and produced a value;
    /// what follows those bytes is left for the next parser.
    Done(usize, R),
    /// The parser would match given more bytes.
    Incomplete(Needed),
    /// The parser does not apply; the position inside the input and the reason.
    Mismatch(usize, MismatchKind),
    /// An unrecoverable condition, with its cause.
    Fatal(String),
}

/// An outcome keeps to the input it came from: what it consumes and where it
/// points lie inside the input.
pub open spec fn outcome_fits<R>(o: ParseOutcome<R>, len: nat) -> bool {
    match o {
        ParseOutcome::Done(c, _) => c <= len,
        ParseOutcome::Mismatch(p, _) => p <= len,
        _ => true,
    }
}

/// A parser over byte input producing values of type `R`, tagged with a variant of
/// type `V`, and threading a caller-owned state of type `S`.
///
/// A parser is deterministic: its outcome and the state it leaves are a function of the
/// input, of the values produced so far and of the state it is given. A parser that
/// shares a parent with others should leave the state as it was when it does not match.
pub trait Parsable<R, V, S>: Sized {
    /// The variant tag of this parser.
    spec fn spec_variant(&self) -> V;

    /// The outcome of parsing `input` after `prior`, and the state left behind.
    spec fn spec_parse(&self, input: Seq<u8>, prior: Seq<R>, state: S) -> (ParseOutcome<R>, S);

    /// Every outcome stays inside the input it was computed on.
    proof fn lemma_parse_fits(&self, input: Seq<u8>, prior: Seq<R>, state: S)
        ensures
            outcome_fits(self.spec_parse(input, prior, state).0, input.len()),
    ;

    /// Which kind of parser this is.
    fn variant(&self) -> (v: V)
        ensures
            v == self.spec_variant(),
    ;

    /// Attempts to consume a prefix of `input`.
    fn parse(&self, input: &[u8], prior: &Vec<R>, state: &mut S) -> (r: ParseOutcome<R>)
        ensures
            (r, *final(state)) == self.spec_parse(input@, prior@, *old(state)),
    ;
}

} // verus!
