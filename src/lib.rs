//! An interpreter for the Chef language, whose programs read as cooking recipes.
//!
//! Source text is read in two stages (sentences, then a tree with nested
//! loops), checked for dangling references, and run on a stack machine of
//! mixing bowls and baking dishes.
use vstd::prelude::*;

pub mod interpreter;
pub mod kitchen;
pub mod laws;
pub mod parser;
pub mod semantics;
pub mod text;
pub mod validator;

use crate::parser::ast::Span;

verus! {

/// A message about the program, tied to the stretch of source it concerns.
#[derive(Debug)]
pub struct SpatulaError {
    pub message: String,
    pub span: Span,
}

impl SpatulaError {
    pub fn new(message: String, span: Span) -> (r: Self)
        ensures
            r.message@ == message@,
            r.span == span,
    {
        SpatulaError { message, span }
    }
}

} // verus!
