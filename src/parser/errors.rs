//! What can go wrong while reading a program.
use vstd::prelude::*;

use crate::parser::ast::Span;

verus! {

/// A failure of the first stage (a sentence or section that does not read)
/// or of the second (a loop that does not close, or closes nothing).
#[derive(Clone, Debug, PartialEq, Eq)]
pub enum ParseError {
    FirstStage(String, Span),
    SecondStage(String, Span),
}

} // verus!
