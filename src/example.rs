//! Small example parsers that match single bytes.
use vstd::prelude::*;
use crate::parser::{MismatchKind, Needed, ParseOutcome, Parsable};

verus! {

/// The first example parser: it matches the byte `1`.
#[derive(Debug, Clone, Copy, PartialEq, Eq, Structural)]
pub struct Parser1;

/// The result of the first example parser.
#[derive(Debug, Clone, Copy, PartialEq, Eq, Structural)]
pub struct Parser1Result;

/// The kinds of example parsers.
#[derive(Debug, Clone, Copy, PartialEq, Eq, Structural)]
pub enum ExampleVariant {
    One,
    Byte,
    Empty,
    Never,
    Fail,
}

/// The values the example parsers produce.
#[derive(Debug, Clone, Copy, PartialEq, Eq, Structural)]
pub enum ExampleResult {
    /// Produced by `Parser1`.
    One(Parser1Result),
    /// The byte a byte parser matched.
    Byte(u8),
    /// Produced by the parser that consumes nothing.
    Empty,
}

/// Example parsers. Their state counts the matches so far, up to `u64::MAX`; a
/// parser that does not match leaves it as it is.
#[derive(Debug, Clone, PartialEq, Eq)]
pub enum ExampleParser {
    /// Matches the byte `1`.
    One(Parser1),
    /// Matches the given byte.
    Byte(u8),
    /// Matches every input and consumes nothing.
    Empty,
    /// Matches no input.
    Never,
    /// Fails fatally on every input, with the given cause.
    Fail(String),
}

/// One more match counted.
pub open spec fn counted(state: u64) -> u64 {
    if state < u64::MAX { (state + 1) as u64 } else { state }
}

/// Matching a single byte `b` with the value `v`.
pub open spec fn match_byte(b: u8, v: ExampleResult, input: Seq<u8>, state: u64) -> (ParseOutcome<ExampleResult>, u64) {
    if input.len() == 0 {
        (ParseOutcome::Incomplete(Needed::Size(1)), state)
    } else if input[0] == b {
        (ParseOutcome::Done(1, v), counted(state))
    } else {
        (ParseOutcome::Mismatch(0, MismatchKind::Tag), state)
    }
}

fn count(state: &mut u64)
    ensures
        *final(state) == counted(*old(state)),
{
    if *state < u64::MAX {
        *state = *state + 1;
    }
}

fn parse_byte(b: u8, v: ExampleResult, input: &[u8], state: &mut u64) -> (r: ParseOutcome<ExampleResult>)
    ensures
        (r, *final(state)) == match_byte(b, v, input@, *old(state)),
{
    if input.len() == 0 {
        ParseOutcome::Incomplete(Needed::Size(1))
    } else if input[0] == b {
        count(state);
        ParseOutcome::Done(1, v)
    } else {
        ParseOutcome::Mismatch(0, MismatchKind::Tag)
    }
}

impl Parsable<ExampleResult, ExampleVariant, u64> for ExampleParser {
    open spec fn spec_variant(&self) -> ExampleVariant {
        match self {
            ExampleParser::One(_) => ExampleVariant::One,
            ExampleParser::Byte(_) => ExampleVariant::Byte,
            ExampleParser::Empty => ExampleVariant::Empty,
            ExampleParser::Never => ExampleVariant::Never,
            ExampleParser::Fail(_) => ExampleVariant::Fail,
        }
    }

    open spec fn spec_parse(&self, input: Seq<u8>, prior: Seq<ExampleResult>, state: u64) -> (ParseOutcome<ExampleResult>, u64) {
        match self {
            ExampleParser::One(_) => match_byte(0x31, ExampleResult::One(Parser1Result), input, state),
            ExampleParser::Byte(b) => match_byte(*b, ExampleResult::Byte(*b), input, state),
            ExampleParser::Empty => (ParseOutcome::Done(0, ExampleResult::Empty), counted(state)),
            ExampleParser::Never => (ParseOutcome::Mismatch(0, MismatchKind::Tag), state),
            ExampleParser::Fail(cause) => (ParseOutcome::Fatal(*cause), state),
        }
    }

    proof fn lemma_parse_fits(&self, input: Seq<u8>, prior: Seq<ExampleResult>, state: u64) {
    }

    fn variant(&self) -> (v: ExampleVariant) {
        match self {
            ExampleParser::One(_) => ExampleVariant::One,
            ExampleParser::Byte(_) => ExampleVariant::Byte,
            ExampleParser::Empty => ExampleVariant::Empty,
            ExampleParser::Never => ExampleVariant::Never,
            ExampleParser::Fail(_) => ExampleVariant::Fail,
        }
    }

    fn parse(&self, input: &[u8], prior: &Vec<ExampleResult>, state: &mut u64) -> (r: ParseOutcome<ExampleResult>) {
        match self {
            ExampleParser::One(_) => parse_byte(0x31, ExampleResult::One(Parser1Result), input, state),
            ExampleParser::Byte(b) => parse_byte(*b, ExampleResult::Byte(*b), input, state),
            ExampleParser::Empty => {
                count(state);
                ParseOutcome::Done(0, ExampleResult::Empty)
            },
            ExampleParser::Never => ParseOutcome::Mismatch(0, MismatchKind::Tag),
            ExampleParser::Fail(cause) => ParseOutcome::Fatal(cause.clone()),
        }
    }
}

} // verus!
