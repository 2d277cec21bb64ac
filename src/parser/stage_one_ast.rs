//! The flat form of a recipe: one value per method sentence, loops not yet paired.
use vstd::prelude::*;

use crate::parser::ast::Verb;

verus! {

/// A method sentence. Bowl and dish numbers are utensil indices: an absent
/// ordinal and "1st" both give 0, any other ordinal gives its own number.
#[derive(Clone, Debug, PartialEq, Eq, Hash)]
pub enum CookingInstruction {
    /// Take ingredient from refrigerator: read a number from input.
    Take(String),
    /// Put ingredient into the nth mixing bowl.
    Put(String, usize),
    /// Fold ingredient into the nth mixing bowl: pop the bowl into the ingredient.
    Fold(String, usize),
    /// Add ingredient to the top of the nth mixing bowl.
    Add(String, usize),
    /// Subtract ingredient from the top of the nth mixing bowl.
    Remove(String, usize),
    /// Multiply the top of the nth mixing bowl by the ingredient.
    Combine(String, usize),
    /// Divide the top of the nth mixing bowl by the ingredient.
    Divide(String, usize),
    /// Sum the dry ingredients into the nth mixing bowl.
    AddDryIngredients(usize),
    /// Make the ingredient wet.
    Liquefy(String),
    /// Make every value in the nth mixing bowl wet.
    LiquefyContents(usize),
    /// Roll the top of the nth mixing bowl down by a number of places.
    Stir(usize, usize),
    /// Roll the top of the nth mixing bowl down by the ingredient's value.
    StirIngredient(String, usize),
    /// Shuffle the nth mixing bowl.
    Mix(usize),
    /// Empty the nth mixing bowl.
    Clean(usize),
    /// Copy the nth mixing bowl onto the pth baking dish.
    Pour(usize, usize),
    /// Opens a loop guarded by the ingredient.
    Verb(Verb, String),
    /// Closes the innermost open loop.
    VerbUntil(Option<String>, Verb),
    /// Leave the innermost loop.
    SetAside,
    /// Run an auxiliary recipe.
    ServeWith(String),
    /// End the recipe, printing the first dishes if hours are given.
    Refrigerate(Option<usize>),
    /// Print the first dishes.
    Serves(usize),
}

/// What a method sentence says, with its words as character sequences.
pub enum Sentence {
    Take(Seq<char>),
    Put(Seq<char>, usize),
    Fold(Seq<char>, usize),
    Add(Seq<char>, usize),
    Remove(Seq<char>, usize),
    Combine(Seq<char>, usize),
    Divide(Seq<char>, usize),
    AddDryIngredients(usize),
    Liquefy(Seq<char>),
    LiquefyContents(usize),
    Stir(usize, usize),
    StirIngredient(Seq<char>, usize),
    Mix(usize),
    Clean(usize),
    Pour(usize, usize),
    Verb(Seq<char>, Seq<char>),
    VerbUntil(Option<Seq<char>>, Seq<char>),
    SetAside,
    ServeWith(Seq<char>),
    Refrigerate(Option<usize>),
    Serves(usize),
}

impl View for CookingInstruction {
    type V = Sentence;

    open spec fn view(&self) -> Sentence {
        match self {
            CookingInstruction::Take(i) => Sentence::Take(i@),
            CookingInstruction::Put(i, b) => Sentence::Put(i@, *b),
            CookingInstruction::Fold(i, b) => Sentence::Fold(i@, *b),
            CookingInstruction::Add(i, b) => Sentence::Add(i@, *b),
            CookingInstruction::Remove(i, b) => Sentence::Remove(i@, *b),
            CookingInstruction::Combine(i, b) => Sentence::Combine(i@, *b),
            CookingInstruction::Divide(i, b) => Sentence::Divide(i@, *b),
            CookingInstruction::AddDryIngredients(b) => Sentence::AddDryIngredients(*b),
            CookingInstruction::Liquefy(i) => Sentence::Liquefy(i@),
            CookingInstruction::LiquefyContents(b) => Sentence::LiquefyContents(*b),
            CookingInstruction::Stir(b, m) => Sentence::Stir(*b, *m),
            CookingInstruction::StirIngredient(i, b) => Sentence::StirIngredient(i@, *b),
            CookingInstruction::Mix(b) => Sentence::Mix(*b),
            CookingInstruction::Clean(b) => Sentence::Clean(*b),
            CookingInstruction::Pour(b, d) => Sentence::Pour(*b, *d),
            CookingInstruction::Verb(v, i) => Sentence::Verb(v.0@, i@),
            CookingInstruction::VerbUntil(i, v) => Sentence::VerbUntil(
                match i {
                    Some(i) => Some(i@),
                    None => None,
                },
                v.0@,
            ),
            CookingInstruction::SetAside => Sentence::SetAside,
            CookingInstruction::ServeWith(r) => Sentence::ServeWith(r@),
            CookingInstruction::Refrigerate(h) => Sentence::Refrigerate(*h),
            CookingInstruction::Serves(n) => Sentence::Serves(*n),
        }
    }
}

/// An ingredient line as written.
#[derive(Clone, Debug, PartialEq, Eq, Hash)]
pub struct CookingIngredient {
    pub initial_value: Option<usize>,
    pub measure: Option<CookingMeasure>,
    pub name: String,
}

#[derive(Clone, Copy, Debug, PartialEq, Eq, Hash, Structural)]
pub struct CookingMeasure {
    pub measure_type: Option<MeasureType>,
    pub unit: MeasureUnit,
}

impl CookingMeasure {
    pub fn new(unit: MeasureUnit, measure_type: Option<MeasureType>) -> (r: Self)
        ensures
            r.unit == unit,
            r.measure_type == measure_type,
    {
        CookingMeasure { measure_type, unit }
    }
}

#[derive(Clone, Copy, Debug, PartialEq, Eq, Hash, Structural)]
pub enum MeasureType {
    Heaped,
    Level,
}

#[derive(Clone, Copy, Debug, PartialEq, Eq, Hash, Structural)]
pub enum MeasureUnit {
    Grams,
    Kilograms,
    Pinches,
    Milliliters,
    Liters,
    Dashes,
    Cups,
    Teaspoons,
    Tablespoons,
}

} // verus!
