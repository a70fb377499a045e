//! Per-line parse errors, and their mathematical model.
use vstd::prelude::*;

verus! {

/// Why an argument was rejected.
#[derive(Debug, PartialEq, Eq, Structural, Clone, Copy, Hash, PartialOrd, Ord)]
pub enum InvalidArgument {
    LabelIsNotValid,
    ArgumentIsRequired,
    ArgumentValueMustBeNumeric,
    PureArgumentIsNotAllowed,
    ArgumentIsNotValid,
}

/// A parse error; each variant carries the zero-based line number.
#[derive(Debug, PartialEq, Eq, Clone, Hash, PartialOrd, Ord)]
pub enum ParseError {
    LabelIsNotValid(usize),
    /// More than two tokens on the line.
    UnsupportedSyntax(usize),
    /// The opcode, upper-cased, is not one of the known mnemonics.
    UnsupportedOpcode(usize, String),
    ArgumentIsRequired(usize),
    ArgumentIsNotValid(usize, InvalidArgument),
    /// Reserved; no input produces it.
    UnknownError(usize),
}

/// A parse error with its text seen as a character sequence.
pub enum ParseErrorModel {
    LabelIsNotValid(usize),
    UnsupportedSyntax(usize),
    UnsupportedOpcode(usize, Seq<char>),
    ArgumentIsRequired(usize),
    ArgumentIsNotValid(usize, InvalidArgument),
    UnknownError(usize),
}

impl View for ParseError {
    type V = ParseErrorModel;

    open spec fn view(&self) -> ParseErrorModel {
        match self {
            ParseError::LabelIsNotValid(l) => ParseErrorModel::LabelIsNotValid(*l),
            ParseError::UnsupportedSyntax(l) => ParseErrorModel::UnsupportedSyntax(*l),
            ParseError::UnsupportedOpcode(l, op) => ParseErrorModel::UnsupportedOpcode(*l, op@),
            ParseError::ArgumentIsRequired(l) => ParseErrorModel::ArgumentIsRequired(*l),
            ParseError::ArgumentIsNotValid(l, k) => ParseErrorModel::ArgumentIsNotValid(*l, *k),
            ParseError::UnknownError(l) => ParseErrorModel::UnknownError(*l),
        }
    }
}

impl ParseError {
    pub fn pure_argument_not_allowed(index: usize) -> (r: ParseError)
        ensures
            r@ == ParseErrorModel::ArgumentIsNotValid(index, InvalidArgument::PureArgumentIsNotAllowed),
    {
        ParseError::ArgumentIsNotValid(index, InvalidArgument::PureArgumentIsNotAllowed)
    }

    pub fn not_valid_argument(index: usize) -> (r: ParseError)
        ensures
            r@ == ParseErrorModel::ArgumentIsNotValid(index, InvalidArgument::ArgumentIsNotValid),
    {
        ParseError::ArgumentIsNotValid(index, InvalidArgument::ArgumentIsNotValid)
    }

    pub fn argument_value_must_be_numeric(index: usize) -> (r: ParseError)
        ensures
            r@ == ParseErrorModel::ArgumentIsNotValid(index, InvalidArgument::ArgumentValueMustBeNumeric),
    {
        ParseError::ArgumentIsNotValid(index, InvalidArgument::ArgumentValueMustBeNumeric)
    }
}

} // verus!
