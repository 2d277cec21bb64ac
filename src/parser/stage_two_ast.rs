//! The structured form of a program: loops nested as trees, recipes gathered.
use vstd::prelude::*;

use crate::parser::ast::{ChefRecipe, Ingredient, Span, Spanned, Verb};
use crate::parser::stage_one_ast::Sentence;

verus! {

/// A whole program: the main recipe and the auxiliary recipes, each auxiliary
/// one under its lower-cased title. Titles are unique keys.
#[derive(Debug)]
pub struct ChefProgram {
    pub main: ChefRecipe<Instruction, Ingredient>,
    pub auxilary: Vec<(String, ChefRecipe<Instruction, Ingredient>)>,
}

/// A method instruction with its loops paired. Bowl and dish numbers are
/// utensil indices, as in the first stage.
#[derive(Debug, PartialEq, Eq, Hash)]
pub enum Instruction {
    Take(String),
    Put(String, usize),
    Fold(String, usize),
    Add(String, usize),
    Remove(String, usize),
    Combine(String, usize),
    Divide(String, usize),
    AddDryIngredients(usize),
    Liquefy(String),
    LiquefyContents(usize),
    Stir(usize, usize),
    StirIngredient(String, usize),
    Mix(usize),
    Clean(usize),
    Pour(usize, usize),
    /// A loop with its body.
    VerbLoop(VerbLoop),
    SetAside,
    ServeWith(String),
    Refrigerate(Option<usize>),
    Serves(usize),
}

/// A loop: while the guard ingredient is not zero, run the body.
///
/// The closing sentence is kept as it was written (its ingredient and verb),
/// though it takes no part in running the loop.
#[derive(Debug, PartialEq, Eq, Hash)]
pub struct VerbLoop {
    pub verb: Verb,
    pub ingredient: String,
    pub instructions: Vec<Spanned<Instruction>>,
    pub until_ingredient: Option<String>,
    pub until_verb: Verb,
}

pub open spec fn opt_view(s: Option<String>) -> Option<Seq<char>> {
    match s {
        Some(s) => Some(s@),
        None => None,
    }
}

/// The sentence that opens a loop.
pub open spec fn opening(l: VerbLoop) -> Sentence {
    Sentence::Verb(l.verb.0@, l.ingredient@)
}

/// The sentence that closes a loop.
pub open spec fn closing(l: VerbLoop) -> Sentence {
    Sentence::VerbUntil(opt_view(l.until_ingredient), l.until_verb.0@)
}

/// The sentence that an instruction other than a loop was read from.
pub open spec fn plain_sentence(i: Instruction) -> Sentence {
    match i {
        Instruction::Take(a) => Sentence::Take(a@),
        Instruction::Put(a, b) => Sentence::Put(a@, b),
        Instruction::Fold(a, b) => Sentence::Fold(a@, b),
        Instruction::Add(a, b) => Sentence::Add(a@, b),
        Instruction::Remove(a, b) => Sentence::Remove(a@, b),
        Instruction::Combine(a, b) => Sentence::Combine(a@, b),
        Instruction::Divide(a, b) => Sentence::Divide(a@, b),
        Instruction::AddDryIngredients(b) => Sentence::AddDryIngredients(b),
        Instruction::Liquefy(a) => Sentence::Liquefy(a@),
        Instruction::LiquefyContents(b) => Sentence::LiquefyContents(b),
        Instruction::Stir(b, m) => Sentence::Stir(b, m),
        Instruction::StirIngredient(a, b) => Sentence::StirIngredient(a@, b),
        Instruction::Mix(b) => Sentence::Mix(b),
        Instruction::Clean(b) => Sentence::Clean(b),
        Instruction::Pour(b, d) => Sentence::Pour(b, d),
        Instruction::VerbLoop(l) => opening(l),
        Instruction::SetAside => Sentence::SetAside,
        Instruction::ServeWith(r) => Sentence::ServeWith(r@),
        Instruction::Refrigerate(h) => Sentence::Refrigerate(h),
        Instruction::Serves(n) => Sentence::Serves(n),
    }
}

/// The flat sentence stream that a tree of instructions stands for: each
/// loop becomes its opening sentence, its flattened body and its closing
/// sentence.
pub open spec fn flatten(t: Seq<Spanned<Instruction>>) -> Seq<Sentence>
    decreases t,
{
    if t.len() == 0 {
        Seq::empty()
    } else {
        flatten(t.drop_last()) + flat_one(t.last())
    }
}

pub open spec fn flat_one(x: Spanned<Instruction>) -> Seq<Sentence>
    decreases x,
{
    match x.0 {
        Instruction::VerbLoop(l) => seq![opening(l)] + flatten(l.instructions@) + seq![closing(l)],
        other => seq![plain_sentence(other)],
    }
}

/// Where a flattened sentence's span comes from: a plain instruction keeps
/// its sentence's span; a loop's span starts where its opening sentence
/// starts and ends where its closing sentence ends.
pub enum SpanMark {
    Exact(Span),
    Opens(usize),
    Closes(usize),
}

/// The span marks of a tree, one for each sentence of its flattening.
pub open spec fn flat_marks(t: Seq<Spanned<Instruction>>) -> Seq<SpanMark>
    decreases t,
{
    if t.len() == 0 {
        Seq::empty()
    } else {
        flat_marks(t.drop_last()) + marks_one(t.last())
    }
}

pub open spec fn marks_one(x: Spanned<Instruction>) -> Seq<SpanMark>
    decreases x,
{
    match x.0 {
        Instruction::VerbLoop(l) => seq![SpanMark::Opens(x.1.start)] + flat_marks(l.instructions@)
            + seq![SpanMark::Closes(x.1.end)],
        _ => seq![SpanMark::Exact(x.1)],
    }
}

} // verus!
