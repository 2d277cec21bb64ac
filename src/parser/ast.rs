//! Types shared by both stages of the parser.
use vstd::prelude::*;

verus! {

/// A half-open range of character offsets into the source text.
#[derive(Clone, Copy, Debug, PartialEq, Eq, Hash, Structural)]
pub struct Span {
    pub start: usize,
    pub end: usize,
}

impl Span {
    pub fn new(start: usize, end: usize) -> (r: Span)
        ensures
            r.start == start,
            r.end == end,
    {
        Span { start, end }
    }
}

/// A value together with the source range it was read from.
#[derive(Clone, Debug, PartialEq, Eq, Hash)]
pub struct Spanned<T>(pub T, pub Span);

impl<T> Spanned<T> {
    pub fn new(value: T, span: Span) -> (r: Self)
        ensures
            r.0 == value,
            r.1 == span,
    {
        Spanned(value, span)
    }

    pub fn value(&self) -> (r: &T)
        ensures
            *r == self.0,
    {
        &self.0
    }

    pub fn into_value(self) -> (r: T)
        ensures
            r == self.0,
    {
        self.0
    }

    pub fn span(&self) -> (r: Span)
        ensures
            r == self.1,
    {
        self.1
    }
}

/// One recipe: a title, its ingredient list and its method.
///
/// `T` is the form of the method's instructions and `I` that of the
/// ingredient declarations, which differ between the two parser stages.
#[derive(Clone, Debug, PartialEq, Eq, Hash)]
pub struct ChefRecipe<T, I> {
    pub title: String,
    pub comments: String,
    pub ingredients: Vec<Spanned<I>>,
    pub cooking_time: Option<usize>,
    pub oven_temperature: Option<usize>,
    pub instructions: Vec<Spanned<T>>,
    pub serves: Option<Spanned<usize>>,
}

/// How an ingredient's value is printed: wet values as a character,
/// dry and unspecified ones as a number.
#[derive(Clone, Copy, Debug, PartialEq, Eq, Hash, Structural)]
pub enum IngredientKind {
    Dry,
    Wet,
    Unspecified,
}

/// An ingredient declaration with its kind worked out from the measure.
#[derive(Clone, Debug, PartialEq, Eq, Hash)]
pub struct Ingredient {
    pub initial_value: Option<usize>,
    pub measure: Option<Measure>,
    pub name: String,
    pub kind: IngredientKind,
}

/// The verb that opens or closes a loop.
#[derive(Clone, Debug, PartialEq, Eq, Hash)]
pub struct Verb(pub String);

#[derive(Clone, Copy, Debug, PartialEq, Eq, Hash, Structural)]
pub struct Measure {
    pub measure_type: Option<MeasureType>,
    pub unit: MeasureUnit,
}

impl Measure {
    pub fn new(unit: MeasureUnit, measure_type: Option<MeasureType>) -> (r: Self)
        ensures
            r.unit == unit,
            r.measure_type == measure_type,
    {
        Measure { measure_type, unit }
    }
}

#[derive(Clone, Copy, Debug, PartialEq, Eq, Hash, Structural)]
pub enum MeasureType {
    Heaped,
    Level,
}

#[derive(Clone, Copy, Debug, PartialEq, Eq, Hash, Structural)]
pub enum MeasureUnit {
    Grams,
    Kilograms,
    Pinches,
    Milliliters,
    Liters,
    Dashes,
    Cups,
    Teaspoons,
    Tablespoons,
}

/// The kind that a declaration's measure gives its ingredient.
pub open spec fn kind_of_measure(m: Option<Measure>) -> IngredientKind {
    match m {
        None => IngredientKind::Unspecified,
        Some(m) => if m.measure_type is Some {
            IngredientKind::Dry
        } else {
            match m.unit {
                MeasureUnit::Grams | MeasureUnit::Kilograms | MeasureUnit::Pinches => IngredientKind::Dry,
                MeasureUnit::Milliliters | MeasureUnit::Liters | MeasureUnit::Dashes => IngredientKind::Wet,
                _ => IngredientKind::Unspecified,
            }
        },
    }
}

/// Works out the kind of an ingredient from its measure.
pub fn measure_kind(m: Option<Measure>) -> (r: IngredientKind)
    ensures
        r == kind_of_measure(m),
{
    match m {
        None => IngredientKind::Unspecified,
        Some(m) => if m.measure_type.is_some() {
            IngredientKind::Dry
        } else {
            match m.unit {
                MeasureUnit::Grams | MeasureUnit::Kilograms | MeasureUnit::Pinches => IngredientKind::Dry,
                MeasureUnit::Milliliters | MeasureUnit::Liters | MeasureUnit::Dashes => IngredientKind::Wet,
                _ => IngredientKind::Unspecified,
            }
        },
    }
}

} // verus!
