//! The second stage: pairing loop sentences into loops, and gathering the
//! recipes into a program.
use vstd::prelude::*;

use crate::parser::ast::{
    kind_of_measure, measure_kind, ChefRecipe, Ingredient, Measure, MeasureType, MeasureUnit,
    Span, Spanned, Verb,
};
use crate::parser::errors::ParseError;
use crate::parser::stage_one_ast::{
    CookingIngredient, CookingInstruction, CookingMeasure, MeasureType as CookingMeasureType,
    MeasureUnit as CookingMeasureUnit, Sentence,
};
use crate::parser::stage_two_ast::{
    flat_marks, flat_one, flatten, marks_one, opening, plain_sentence, ChefProgram, Instruction,
    SpanMark, VerbLoop,
};
use crate::text::{lower_of, lowercase};

verus! {

/// The sentences of a flat instruction list.
pub open spec fn views(v: Seq<Spanned<CookingInstruction>>) -> Seq<Sentence> {
    Seq::new(v.len(), |i: int| v[i].0@)
}

/// The span mark that a sentence's span gives its place in a flattening.
pub open spec fn mark_of(c: Spanned<CookingInstruction>) -> SpanMark {
    match c.0 {
        CookingInstruction::Verb(_, _) => SpanMark::Opens(c.1.start),
        CookingInstruction::VerbUntil(_, _) => SpanMark::Closes(c.1.end),
        _ => SpanMark::Exact(c.1),
    }
}

/// The span marks of a flat instruction list.
pub open spec fn marks(v: Seq<Spanned<CookingInstruction>>) -> Seq<SpanMark> {
    Seq::new(v.len(), |i: int| mark_of(v[i]))
}

/// The span `sp` is that of a loop-opening sentence among the first `k`
/// that is still open after them, with `d` loops opened after it still
/// open too: `d` is 0 for the innermost open loop.
pub open spec fn open_below(v: Seq<Spanned<CookingInstruction>>, sp: Span, k: int, d: int) -> bool {
    exists|a: int|
        0 <= a < k && #[trigger] v[a].0 is Verb && v[a].1 == sp && open_count(
            views(v).subrange(a + 1, k),
        ) == d && forall|m: int|
            a + 1 <= m <= k ==> open_count(#[trigger] views(v).subrange(a + 1, m)) >= 0
}

/// How a sentence changes the number of open loops.
pub open spec fn sentence_step(x: Sentence) -> int {
    match x {
        Sentence::Verb(_, _) => 1int,
        Sentence::VerbUntil(_, _) => -1int,
        _ => 0int,
    }
}

proof fn lemma_open_below_extend(v: Seq<Spanned<CookingInstruction>>, sp: Span, k: int, d: int)
    requires
        0 <= k < v.len(),
        open_below(v, sp, k, d),
        d + sentence_step(views(v)[k]) >= 0,
    ensures
        open_below(v, sp, k + 1, d + sentence_step(views(v)[k])),
{
    let t = views(v);
    let a = choose|a: int|
        0 <= a < k && #[trigger] v[a].0 is Verb && v[a].1 == sp && open_count(t.subrange(a + 1, k))
            == d && forall|m: int| a + 1 <= m <= k ==> open_count(#[trigger] t.subrange(a + 1, m)) >= 0;
    assert(t.subrange(a + 1, k + 1).drop_last() == t.subrange(a + 1, k));
    assert(t.subrange(a + 1, k + 1).last() == t[k]);
    assert(open_count(t.subrange(a + 1, k + 1)) == d + sentence_step(t[k]));
    assert(v[a].0 is Verb);
}

proof fn lemma_open_below_fresh(v: Seq<Spanned<CookingInstruction>>, k: int)
    requires
        0 <= k < v.len(),
        v[k].0 is Verb,
    ensures
        open_below(v, v[k].1, k + 1, 0),
{
    let t = views(v);
    assert(t.subrange(k + 1, k + 1) =~= Seq::<Sentence>::empty());
    assert(v[k].0 is Verb);
}

/// The error that lifting a flat list gives: an `until` with no open loop
/// fails with the span of the first such sentence; a loop left open at the
/// end fails with the span of the innermost loop still open.
pub open spec fn lift_error(v: Seq<Spanned<CookingInstruction>>, msg: Seq<char>, sp: Span) -> bool {
    &&& forall|j: int|
        0 <= j < v.len() && open_count(#[trigger] views(v).subrange(0, j + 1)) < 0 && (forall|m: int|
            0 <= m <= j ==> open_count(views(v).subrange(0, m)) >= 0) ==> msg
            == "unmatched until: no loop is open here"@ && sp == v[j].1
    &&& (forall|m: int| 0 <= m <= v.len() ==> open_count(#[trigger] views(v).subrange(0, m)) >= 0)
        && open_count(views(v)) > 0 ==> msg == "unterminated loop: the recipe ends inside it"@
        && open_below(v, sp, v.len() as int, 0)
}

/// Loops opened and not yet closed in `s`: openings less closings.
pub open spec fn open_count(s: Seq<Sentence>) -> int
    decreases s.len(),
{
    if s.len() == 0 {
        0
    } else {
        open_count(s.drop_last()) + match s.last() {
            Sentence::Verb(_, _) => 1int,
            Sentence::VerbUntil(_, _) => -1int,
            _ => 0int,
        }
    }
}

/// Every closing sentence closes a loop opened before it, and every loop
/// that is opened is closed.
pub open spec fn balanced(s: Seq<Sentence>) -> bool {
    &&& forall|k: int| 0 <= k <= s.len() ==> open_count(#[trigger] s.subrange(0, k)) >= 0
    &&& open_count(s) == 0
}

/// A loop whose closing sentence has not been reached yet.
struct OpenLoop {
    verb: Verb,
    ingredient: String,
    body: Vec<Spanned<Instruction>>,
    span: Span,
}

/// The sentences that the open loops stand for so far, outermost first.
spec fn frames_flat(st: Seq<OpenLoop>) -> Seq<Sentence>
    decreases st.len(),
{
    if st.len() == 0 {
        Seq::empty()
    } else {
        frames_flat(st.drop_last()) + seq![Sentence::Verb(st.last().verb.0@, st.last().ingredient@)]
            + flatten(st.last().body@)
    }
}

/// The span marks that the open loops stand for so far, outermost first.
spec fn frames_marks(st: Seq<OpenLoop>) -> Seq<SpanMark>
    decreases st.len(),
{
    if st.len() == 0 {
        Seq::empty()
    } else {
        frames_marks(st.drop_last()) + seq![SpanMark::Opens(st.last().span.start)] + flat_marks(
            st.last().body@,
        )
    }
}

proof fn lemma_marks_push(t: Seq<Spanned<Instruction>>, x: Spanned<Instruction>)
    ensures
        flat_marks(t.push(x)) == flat_marks(t) + marks_one(x),
{
    assert(t.push(x).drop_last() == t);
}

proof fn lemma_flatten_push(t: Seq<Spanned<Instruction>>, x: Spanned<Instruction>)
    ensures
        flatten(t.push(x)) == flatten(t) + flat_one(x),
{
    assert(t.push(x).drop_last() == t);
}

/// Adds a finished instruction to the innermost open loop, or to the top level.
fn add_item(top: &mut Vec<Spanned<Instruction>>, stack: &mut Vec<OpenLoop>, item: Spanned<Instruction>)
    ensures
        flatten(final(top)@) + frames_flat(final(stack)@) == flatten(old(top)@) + frames_flat(
            old(stack)@,
        ) + flat_one(item),
        flat_marks(final(top)@) + frames_marks(final(stack)@) == flat_marks(old(top)@)
            + frames_marks(old(stack)@) + marks_one(item),
        final(stack)@.len() == old(stack)@.len(),
        forall|i: int| 0 <= i < old(stack)@.len() ==> #[trigger] final(stack)@[i].span == old(stack)@[i].span,
{
    match stack.pop() {
        None => {
            proof {
                lemma_flatten_push(top@, item);
                lemma_marks_push(top@, item);
            }
            top.push(item);
        },
        Some(f) => {
            let ghost b = f.body@;
            let OpenLoop { verb, ingredient, mut body, span } = f;
            body.push(item);
            proof {
                lemma_flatten_push(b, item);
                lemma_marks_push(b, item);
            }
            let g = OpenLoop { verb, ingredient, body, span };
            let ghost st = stack@;
            stack.push(g);
            assert(stack@.drop_last() == st);
            assert(flatten(top@) + frames_flat(stack@) =~= flatten(old(top)@) + frames_flat(
                old(stack)@,
            ) + flat_one(item));
            assert(flat_marks(top@) + frames_marks(stack@) =~= flat_marks(old(top)@) + frames_marks(
                old(stack)@,
            ) + marks_one(item));
        },
    }
}

/// The instruction for a sentence that neither opens nor closes a loop.
fn plain(c: CookingInstruction) -> (r: Instruction)
    requires
        !(c is Verb),
        !(c is VerbUntil),
    ensures
        plain_sentence(r) == c@,
        !(r is VerbLoop),
{
    match c {
        CookingInstruction::Take(a) => Instruction::Take(a),
        CookingInstruction::Put(a, b) => Instruction::Put(a, b),
        CookingInstruction::Fold(a, b) => Instruction::Fold(a, b),
        CookingInstruction::Add(a, b) => Instruction::Add(a, b),
        CookingInstruction::Remove(a, b) => Instruction::Remove(a, b),
        CookingInstruction::Combine(a, b) => Instruction::Combine(a, b),
        CookingInstruction::Divide(a, b) => Instruction::Divide(a, b),
        CookingInstruction::AddDryIngredients(b) => Instruction::AddDryIngredients(b),
        CookingInstruction::Liquefy(a) => Instruction::Liquefy(a),
        CookingInstruction::LiquefyContents(b) => Instruction::LiquefyContents(b),
        CookingInstruction::Stir(b, m) => Instruction::Stir(b, m),
        CookingInstruction::StirIngredient(a, b) => Instruction::StirIngredient(a, b),
        CookingInstruction::Mix(b) => Instruction::Mix(b),
        CookingInstruction::Clean(b) => Instruction::Clean(b),
        CookingInstruction::Pour(b, d) => Instruction::Pour(b, d),
        CookingInstruction::SetAside => Instruction::SetAside,
        CookingInstruction::ServeWith(r) => Instruction::ServeWith(r),
        CookingInstruction::Refrigerate(h) => Instruction::Refrigerate(h),
        CookingInstruction::Serves(n) => Instruction::Serves(n),
        CookingInstruction::Verb(_, _) => Instruction::SetAside,
        CookingInstruction::VerbUntil(_, _) => Instruction::SetAside,
    }
}

/// Pairs each loop-opening sentence with the next unpaired closing one and
/// nests the sentences between them as the loop's body.
///
/// Succeeds exactly when the loop sentences are balanced, and then
/// flattening the result gives back the sentence stream it was given: each
/// plain instruction keeps its sentence's span, and a loop spans its opening
/// sentence through its closing one. An `until` with no open loop fails with
/// its own span; a loop left open fails with the opening span of the
/// innermost loop still open.
#[verifier::rlimit(60)]
pub fn parse_instructions(instructions: Vec<Spanned<CookingInstruction>>) -> (r: Result<
    Vec<Spanned<Instruction>>,
    ParseError,
>)
    ensures
        r is Ok <==> balanced(views(instructions@)),
        r matches Ok(t) ==> flatten(t@) == views(instructions@),
        r matches Ok(t) ==> flat_marks(t@) == marks(instructions@),
        r matches Err(e) ==> e is SecondStage,
        r matches Err(ParseError::SecondStage(msg, sp)) ==> lift_error(instructions@, msg@, sp),
{
    let ghost s = views(instructions@);
    let ghost n = s.len();
    let mut rest = instructions;
    let mut top: Vec<Spanned<Instruction>> = Vec::new();
    let mut stack: Vec<OpenLoop> = Vec::new();
    let ghost mut k: int = 0;
    assert(s.subrange(0, 0) =~= Seq::<Sentence>::empty());
    while rest.len() > 0
        invariant
            0 <= k <= n,
            n == s.len(),
            s == views(instructions@),
            views(rest@) == s.subrange(k, n as int),
            flatten(top@) + frames_flat(stack@) == s.subrange(0, k),
            flat_marks(top@) + frames_marks(stack@) == marks(instructions@).subrange(0, k),
            forall|i: int| 0 <= i < rest@.len() ==> rest@[i] == instructions@[k + i],
            forall|i: int|
                0 <= i < stack@.len() ==> open_below(
                    instructions@,
                    #[trigger] stack@[i].span,
                    k,
                    stack@.len() - 1 - i,
                ),
            stack@.len() == open_count(s.subrange(0, k)),
            forall|j: int| 0 <= j <= k ==> open_count(#[trigger] s.subrange(0, j)) >= 0,
        decreases rest.len(),
    {
        let ghost rest0 = rest@;
        let Spanned(c, span) = rest.remove(0);
        assert(views(rest0) == s.subrange(k, n as int));
        assert(rest0.len() > 0);
        assert(views(rest0).len() == rest0.len());
        assert(k < n);
        assert(rest0[0].0@ == views(rest0)[0]);
        assert(s.subrange(k, n as int)[0] == s[k]);
        assert(views(rest0)[0] == s[k]);
        assert forall|i: int| 0 <= i < views(rest@).len() implies views(rest@)[i] == s.subrange(
            k + 1,
            n as int,
        )[i] by {
            assert(rest@[i] == rest0[i + 1]);
            assert(views(rest0)[i + 1] == s.subrange(k, n as int)[i + 1]);
        }
        assert(views(rest@) =~= s.subrange(k + 1, n as int));
        assert(rest0[0] == instructions@[k]);
        assert(forall|i: int| 0 <= i < rest@.len() ==> rest@[i] == rest0[i + 1]);
        let ghost mk = marks(instructions@);
        assert(mk.subrange(0, k + 1) =~= mk.subrange(0, k).push(mark_of(instructions@[k])));
        assert(s.subrange(0, k + 1).drop_last() == s.subrange(0, k));
        assert(views(instructions@)[k] == s[k]);
        let ghost st0 = stack@;
        assert(s.subrange(0, k + 1).last() == s[k]);
        match c {
            CookingInstruction::Verb(verb, ingredient) => {
                let ghost st = stack@;
                stack.push(OpenLoop { verb, ingredient, body: Vec::new(), span });
                assert(stack@.drop_last() == st);
                assert(flatten(Seq::<Spanned<Instruction>>::empty()) == Seq::<Sentence>::empty());
                assert(flatten(top@) + frames_flat(stack@) =~= s.subrange(0, k + 1));
                assert(flat_marks(Seq::<Spanned<Instruction>>::empty()) == Seq::<SpanMark>::empty());
                assert(flat_marks(top@) + frames_marks(stack@) =~= mk.subrange(0, k + 1));
                assert(instructions@[k].0 is Verb && instructions@[k].1 == span);
                assert(sentence_step(s[k]) == 1);
                assert forall|i: int| 0 <= i < stack@.len() implies open_below(
                    instructions@,
                    #[trigger] stack@[i].span,
                    k + 1,
                    stack@.len() - 1 - i,
                ) by {
                    if i < st0.len() {
                        assert(stack@[i] == st0[i]);
                        lemma_open_below_extend(instructions@, st0[i].span, k, st0.len() - 1 - i);
                    } else {
                        lemma_open_below_fresh(instructions@, k);
                    }
                }
            },
            CookingInstruction::VerbUntil(until_ingredient, until_verb) => {
                let ghost st = stack@;
                match stack.pop() {
                    None => {
                        assert(open_count(s.subrange(0, k + 1)) < 0);
                        assert(!balanced(s));
                        assert(instructions@[k].1 == span);
                        assert forall|j: int|
                            0 <= j < instructions@.len() && open_count(
                                #[trigger] views(instructions@).subrange(0, j + 1),
                            ) < 0 && (forall|m: int|
                                0 <= m <= j ==> open_count(views(instructions@).subrange(0, m))
                                    >= 0) implies j == k by {
                            if j < k {
                                assert(open_count(s.subrange(0, j + 1)) >= 0);
                            } else if j > k {
                                assert(open_count(s.subrange(0, k + 1)) >= 0);
                            }
                        }
                        return Err(
                            ParseError::SecondStage(
                                "unmatched until: no loop is open here".to_owned(),
                                span,
                            ),
                        );
                    },
                    Some(f) => {
                        assert(stack@ == st.drop_last());
                        let OpenLoop { verb, ingredient, body, span: open_span } = f;
                        let l = VerbLoop {
                            verb,
                            ingredient,
                            instructions: body,
                            until_ingredient,
                            until_verb,
                        };
                        let item = Spanned(
                            Instruction::VerbLoop(l),
                            Span { start: open_span.start, end: span.end },
                        );
                        assert(instructions@[k].1 == span);
                        assert(frames_marks(st) == frames_marks(stack@) + seq![
                            SpanMark::Opens(open_span.start),
                        ] + flat_marks(body@));
                        let ghost st2 = stack@;
                        add_item(&mut top, &mut stack, item);
                        assert(flatten(top@) + frames_flat(stack@) =~= s.subrange(0, k + 1));
                        assert(flat_marks(top@) + frames_marks(stack@) =~= mk.subrange(0, k + 1));
                        assert(forall|i: int| 0 <= i < stack@.len() ==> stack@[i].span == st2[i].span);
                        assert(forall|i: int| 0 <= i < st2.len() ==> st2[i] == st[i]);
                        assert(sentence_step(s[k]) == -1);
                        assert forall|i: int| 0 <= i < stack@.len() implies open_below(
                            instructions@,
                            #[trigger] stack@[i].span,
                            k + 1,
                            stack@.len() - 1 - i,
                        ) by {
                            lemma_open_below_extend(instructions@, st0[i].span, k, st0.len() - 1 - i);
                        }
                    },
                }
            },
            other => {
                let item = Spanned(plain(other), span);
                let ghost st2 = stack@;
                add_item(&mut top, &mut stack, item);
                assert(flatten(top@) + frames_flat(stack@) =~= s.subrange(0, k + 1));
                assert(flat_marks(top@) + frames_marks(stack@) =~= mk.subrange(0, k + 1));
                assert(forall|i: int| 0 <= i < stack@.len() ==> stack@[i].span == st2[i].span);
                assert(sentence_step(s[k]) == 0);
                assert forall|i: int| 0 <= i < stack@.len() implies open_below(
                    instructions@,
                    #[trigger] stack@[i].span,
                    k + 1,
                    stack@.len() - 1 - i,
                ) by {
                    lemma_open_below_extend(instructions@, st0[i].span, k, st0.len() - 1 - i);
                }
            },
        }
        proof {
            k = k + 1;
        }
    }
    assert(s.subrange(0, n as int) == s);
    assert(marks(instructions@).subrange(0, n as int) == marks(instructions@));
    if stack.len() > 0 {
        assert(open_below(instructions@, stack@[stack@.len() - 1].span, n as int, 0));
        let f = stack.pop().unwrap();
        return Err(ParseError::SecondStage("unterminated loop: the recipe ends inside it".to_owned(), f.span));
    }
    Ok(top)
}

/// The second-stage form of a first-stage measure.
pub open spec fn measure_of(m: CookingMeasure) -> Measure {
    Measure {
        measure_type: match m.measure_type {
            Some(CookingMeasureType::Heaped) => Some(MeasureType::Heaped),
            Some(CookingMeasureType::Level) => Some(MeasureType::Level),
            None => None,
        },
        unit: match m.unit {
            CookingMeasureUnit::Grams => MeasureUnit::Grams,
            CookingMeasureUnit::Kilograms => MeasureUnit::Kilograms,
            CookingMeasureUnit::Pinches => MeasureUnit::Pinches,
            CookingMeasureUnit::Milliliters => MeasureUnit::Milliliters,
            CookingMeasureUnit::Liters => MeasureUnit::Liters,
            CookingMeasureUnit::Dashes => MeasureUnit::Dashes,
            CookingMeasureUnit::Cups => MeasureUnit::Cups,
            CookingMeasureUnit::Teaspoons => MeasureUnit::Teaspoons,
            CookingMeasureUnit::Tablespoons => MeasureUnit::Tablespoons,
        },
    }
}

pub open spec fn opt_measure_of(m: Option<CookingMeasure>) -> Option<Measure> {
    match m {
        Some(m) => Some(measure_of(m)),
        None => None,
    }
}

fn convert_measure(m: CookingMeasure) -> (r: Measure)
    ensures
        r == measure_of(m),
{
    let measure_type = match m.measure_type {
        Some(CookingMeasureType::Heaped) => Some(MeasureType::Heaped),
        Some(CookingMeasureType::Level) => Some(MeasureType::Level),
        None => None,
    };
    let unit = match m.unit {
        CookingMeasureUnit::Grams => MeasureUnit::Grams,
        CookingMeasureUnit::Kilograms => MeasureUnit::Kilograms,
        CookingMeasureUnit::Pinches => MeasureUnit::Pinches,
        CookingMeasureUnit::Milliliters => MeasureUnit::Milliliters,
        CookingMeasureUnit::Liters => MeasureUnit::Liters,
        CookingMeasureUnit::Dashes => MeasureUnit::Dashes,
        CookingMeasureUnit::Cups => MeasureUnit::Cups,
        CookingMeasureUnit::Teaspoons => MeasureUnit::Teaspoons,
        CookingMeasureUnit::Tablespoons => MeasureUnit::Tablespoons,
    };
    Measure { measure_type, unit }
}

/// A declaration as the second stage holds it: same name and initial value,
/// and the kind that its measure gives.
pub open spec fn ingredient_lifts(a: Spanned<CookingIngredient>, b: Spanned<Ingredient>) -> bool {
    &&& b.1 == a.1
    &&& b.0.name@ == a.0.name@
    &&& b.0.initial_value == a.0.initial_value
    &&& b.0.measure == opt_measure_of(a.0.measure)
    &&& b.0.kind == kind_of_measure(b.0.measure)
}

/// Works out each declaration's kind from its measure.
pub fn parse_ingredients(ingredients: Vec<Spanned<CookingIngredient>>) -> (r: Vec<
    Spanned<Ingredient>,
>)
    ensures
        r@.len() == ingredients@.len(),
        forall|i: int|
            0 <= i < r@.len() ==> ingredient_lifts(ingredients@[i], #[trigger] r@[i]),
{
    let mut rest = ingredients;
    let mut out: Vec<Spanned<Ingredient>> = Vec::new();
    let ghost src = rest@;
    while rest.len() > 0
        invariant
            out@.len() + rest@.len() == src.len(),
            src == ingredients@,
            forall|i: int| 0 <= i < rest@.len() ==> rest@[i] == src[out@.len() + i],
            forall|i: int| 0 <= i < out@.len() ==> ingredient_lifts(src[i], #[trigger] out@[i]),
        decreases rest.len(),
    {
        let ghost rest0 = rest@;
        let Spanned(c, span) = rest.remove(0);
        assert(forall|i: int| 0 <= i < rest@.len() ==> rest@[i] == rest0[i + 1]);
        let measure = match c.measure {
            Some(m) => Some(convert_measure(m)),
            None => None,
        };
        let kind = measure_kind(measure);
        let item = Spanned(
            Ingredient { initial_value: c.initial_value, measure, name: c.name, kind },
            span,
        );
        assert(ingredient_lifts(src[out@.len() as int], item));
        out.push(item);
    }
    out
}

/// A second-stage recipe made from a first-stage one: same title, comments,
/// times and `Serves`, its declarations lifted, and its instructions a tree
/// that flattens back to the sentences it was read from.
pub open spec fn recipe_lifts(
    a: ChefRecipe<CookingInstruction, CookingIngredient>,
    b: ChefRecipe<Instruction, Ingredient>,
) -> bool {
    &&& b.title@ == a.title@
    &&& b.comments@ == a.comments@
    &&& b.cooking_time == a.cooking_time
    &&& b.oven_temperature == a.oven_temperature
    &&& b.serves == a.serves
    &&& b.ingredients@.len() == a.ingredients@.len()
    &&& forall|i: int|
        0 <= i < b.ingredients@.len() ==> ingredient_lifts(a.ingredients@[i], #[trigger] b.ingredients@[i])
    &&& flatten(b.instructions@) == views(a.instructions@)
}

/// Lifts one recipe; fails exactly when its loop sentences are not balanced.
pub fn parse_recipe(recipe: ChefRecipe<CookingInstruction, CookingIngredient>) -> (r: Result<
    ChefRecipe<Instruction, Ingredient>,
    ParseError,
>)
    ensures
        r is Ok <==> balanced(views(recipe.instructions@)),
        r matches Ok(b) ==> recipe_lifts(recipe, b),
        r matches Err(e) ==> e is SecondStage,
        r matches Err(ParseError::SecondStage(msg, sp)) ==> lift_error(recipe.instructions@, msg@, sp),
{
    let ghost a = recipe;
    let ChefRecipe {
        title,
        comments,
        ingredients,
        cooking_time,
        oven_temperature,
        instructions,
        serves,
    } = recipe;
    let instructions = parse_instructions(instructions)?;
    let ingredients = parse_ingredients(ingredients);
    Ok(ChefRecipe {
        title,
        comments,
        ingredients,
        cooking_time,
        oven_temperature,
        instructions,
        serves,
    })
}

/// No two auxiliary recipes share a key, and each is kept under its
/// lower-cased title.
pub open spec fn auxiliaries_keyed(aux: Seq<(String, ChefRecipe<Instruction, Ingredient>)>) -> bool {
    &&& forall|i: int, j: int| 0 <= i < j < aux.len() ==> aux[i].0@ != aux[j].0@
    &&& forall|i: int| 0 <= i < aux.len() ==> #[trigger] aux[i].0@ == lower_of(aux[i].1.title@)
}

/// Whether some auxiliary recipe is kept under `key`.
pub open spec fn has_key(aux: Seq<(String, ChefRecipe<Instruction, Ingredient>)>, key: Seq<char>) -> bool {
    exists|i: int| 0 <= i < aux.len() && #[trigger] aux[i].0@ == key
}

/// Recipe `k` is the last of `rs[..upto]` whose lower-cased title is `key`.
pub open spec fn last_with_key(rs: Seq<ChefRecipe<CookingInstruction, CookingIngredient>>, k: int, upto: int, key: Seq<char>) -> bool {
    &&& 1 <= k < upto <= rs.len()
    &&& lower_of(rs[k].title@) == key
    &&& forall|m: int| k < m < upto ==> lower_of(#[trigger] rs[m].title@) != key
}

/// Each auxiliary recipe kept is the lifted form of the last recipe of
/// `rs[1..upto]` with its key: a later recipe of the same title replaces an
/// earlier one.
pub open spec fn latest_wins(
    rs: Seq<ChefRecipe<CookingInstruction, CookingIngredient>>,
    aux: Seq<(String, ChefRecipe<Instruction, Ingredient>)>,
    upto: int,
) -> bool {
    forall|j: int| 0 <= j < aux.len() ==> kept_latest(rs, #[trigger] aux[j], upto)
}

/// The entry holds the lifted form of the last recipe of `rs[1..upto]`
/// with its key.
pub open spec fn kept_latest(
    rs: Seq<ChefRecipe<CookingInstruction, CookingIngredient>>,
    entry: (String, ChefRecipe<Instruction, Ingredient>),
    upto: int,
) -> bool {
    exists|k: int| #[trigger] last_with_key(rs, k, upto, entry.0@) && recipe_lifts(rs[k], entry.1)
}

/// Recipe `i` is the first whose loops are not balanced.
pub open spec fn first_unbalanced(rs: Seq<ChefRecipe<CookingInstruction, CookingIngredient>>, i: int) -> bool {
    &&& !balanced(views(rs[i].instructions@))
    &&& forall|j: int| 0 <= j < i ==> balanced(views(#[trigger] rs[j].instructions@))
}

/// Every recipe of the list reads as a balanced one.
pub open spec fn all_balanced(rs: Seq<ChefRecipe<CookingInstruction, CookingIngredient>>) -> bool {
    forall|i: int| 0 <= i < rs.len() ==> balanced(views(#[trigger] rs[i].instructions@))
}

/// Gathers the recipes into a program: the first is the main recipe, the
/// others are auxiliary ones under their lower-cased titles, a later recipe
/// replacing an earlier one of the same title.
///
/// Fails when there is no recipe, or when a recipe's loops are not balanced.
#[verifier::rlimit(40)]
pub fn parse(input: Vec<ChefRecipe<CookingInstruction, CookingIngredient>>) -> (r: Result<
    ChefProgram,
    ParseError,
>)
    ensures
        r is Ok <==> input@.len() > 0 && all_balanced(input@),
        r matches Ok(p) ==> recipe_lifts(input@[0], p.main),
        r matches Ok(p) ==> auxiliaries_keyed(p.auxilary@),
        r matches Ok(p) ==> forall|i: int|
            1 <= i < input@.len() ==> has_key(p.auxilary@, lower_of(#[trigger] input@[i].title@)),
        r matches Ok(p) ==> latest_wins(input@, p.auxilary@, input@.len() as int),
        r matches Err(e) ==> e is SecondStage,
        input@.len() == 0 ==> (r matches Err(ParseError::SecondStage(msg, _)) && msg@
            == "No main recipe found"@),
        input@.len() > 0 ==> (r matches Err(ParseError::SecondStage(msg, sp)) ==> exists|i: int|
            0 <= i < input@.len() && first_unbalanced(input@, i) && lift_error(
                #[trigger] input@[i].instructions@,
                msg@,
                sp,
            )),
{
    let ghost src = input@;
    let mut rest = input;
    if rest.len() == 0 {
        return Err(ParseError::SecondStage("No main recipe found".to_owned(), Span { start: 0, end: 1 }));
    }
    let main = match parse_recipe(rest.remove(0)) {
        Ok(m) => m,
        Err(e) => {
            assert(!all_balanced(src)) by {
                assert(!balanced(views(src[0].instructions@)));
            }
            assert(first_unbalanced(src, 0));
            return Err(e);
        },
    };
    let mut auxilary: Vec<(String, ChefRecipe<Instruction, Ingredient>)> = Vec::new();
    let ghost mut k: int = 1;
    while rest.len() > 0
        invariant
            1 <= k <= src.len(),
            src == input@,
            rest@.len() == src.len() - k,
            forall|i: int| 0 <= i < rest@.len() ==> rest@[i] == src[k + i],
            forall|i: int| 0 <= i < k ==> balanced(views(#[trigger] src[i].instructions@)),
            recipe_lifts(src[0], main),
            auxiliaries_keyed(auxilary@),
            forall|i: int| 1 <= i < k ==> has_key(auxilary@, lower_of(#[trigger] src[i].title@)),
            latest_wins(src, auxilary@, k),
        decreases rest.len(),
    {
        let ghost rest0 = rest@;
        let recipe = rest.remove(0);
        assert(recipe == src[k]);
        assert(forall|i: int| 0 <= i < rest@.len() ==> rest@[i] == rest0[i + 1]);
        let lifted = match parse_recipe(recipe) {
            Ok(l) => l,
            Err(e) => {
                assert(!all_balanced(src)) by {
                    assert(!balanced(views(src[k].instructions@)));
                }
                assert(first_unbalanced(src, k));
                return Err(e);
            },
        };
        let key = lowercase(lifted.title.as_str());
        let mut j: usize = 0;
        while j < auxilary.len() && !(auxilary[j].0 == key)
            invariant
                j <= auxilary@.len(),
                forall|i: int| 0 <= i < j ==> auxilary@[i].0@ != key@,
            decreases auxilary.len() - j,
        {
            j = j + 1;
        }
        let ghost before = auxilary@;
        if j < auxilary.len() {
            assert(before[j as int].0@ == key@);
            auxilary.remove(j);
            assert forall|i: int| 1 <= i < k implies has_key(
                auxilary@.push((key, lifted)),
                lower_of(#[trigger] src[i].title@),
            ) by {
                let w = choose|w: int| 0 <= w < before.len() && #[trigger] before[w].0@ == lower_of(src[i].title@);
                if w < j {
                    assert(auxilary@.push((key, lifted))[w] == before[w]);
                } else if w > j {
                    assert(auxilary@.push((key, lifted))[w - 1] == before[w]);
                } else {
                    assert(auxilary@.push((key, lifted))[auxilary@.len() as int] == (key, lifted));
                    assert(auxilary@.push((key, lifted))[auxilary@.len() as int].0@ == lower_of(
                        src[i].title@,
                    ));
                }
            }
        } else {
            assert forall|i: int| 1 <= i < k implies has_key(
                auxilary@.push((key, lifted)),
                lower_of(#[trigger] src[i].title@),
            ) by {
                let w = choose|w: int| 0 <= w < before.len() && #[trigger] before[w].0@ == lower_of(src[i].title@);
                assert(auxilary@.push((key, lifted))[w] == before[w]);
            }
        }
        let ghost mid = auxilary@;
        proof {
            assert(lower_of(src[k].title@) == key@);
            assert forall|j2: int| 0 <= j2 < mid.len() implies kept_latest(src, #[trigger] mid[j2], k + 1) by {
                let jb = if j < before.len() && j2 >= j {
                    j2 + 1
                } else {
                    j2
                };
                assert(mid[j2] == before[jb]);
                assert(before[jb].0@ != key@);
                assert(kept_latest(src, before[jb], k));
                let k2 = choose|k2: int|
                    #[trigger] last_with_key(src, k2, k, before[jb].0@) && recipe_lifts(src[k2], before[jb].1);
                assert(last_with_key(src, k2, k + 1, mid[j2].0@));
            }
        }
        auxilary.push((key, lifted));
        proof {
            assert(last_with_key(src, k, k + 1, key@));
            assert forall|j2: int| 0 <= j2 < auxilary@.len() implies kept_latest(src, #[trigger] auxilary@[j2], k + 1) by {
                if j2 < mid.len() {
                    assert(auxilary@[j2] == mid[j2]);
                } else {
                    assert(auxilary@[j2] == (key, lifted));
                    assert(last_with_key(src, k, k + 1, auxilary@[j2].0@));
                }
            }
            assert(latest_wins(src, auxilary@, k + 1));
        }
        assert(auxilary@[mid.len() as int] == (key, lifted));
        assert(lifted.title@ == src[k].title@);
        assert(auxilary@[mid.len() as int].0@ == lower_of(src[k].title@));
        assert(has_key(auxilary@, lower_of(src[k].title@)));
        proof {
            k = k + 1;
        }
    }
    Ok(ChefProgram { main, auxilary })
}

} // verus!
