//! Reading Chef source: sentences first, then the loop structure.
use vstd::prelude::*;

pub mod ast;
pub mod errors;
pub mod stage_one;
pub mod stage_one_ast;
pub mod stage_two;
pub mod stage_two_ast;

use crate::parser::ast::ChefRecipe;
use crate::parser::errors::ParseError;
use crate::parser::stage_one::{
    method_line, method_spans, next_line, read_sentence, recipe_laid_out, recipe_reads,
    recipe_starts, sentence_at, spans_of, text_start, text_stop, title_text,
};
use crate::parser::stage_one_ast::Sentence;
use crate::parser::stage_two::{all_balanced, balanced, views};
use crate::parser::stage_one_ast::{CookingIngredient, CookingInstruction};
use crate::parser::stage_two::{auxiliaries_keyed, recipe_lifts};
use crate::parser::stage_two_ast::ChefProgram;

verus! {

/// What the method of the recipe at `p` says, sentence by sentence.
pub open spec fn recipe_sentences(w: Seq<char>, p: int, end: int) -> Seq<Sentence> {
    let sps = method_spans(w, next_line(w, method_line(w, p, end), end), end);
    Seq::new(
        sps.len(),
        |j: int| read_sentence(w.subrange(sps[j].start as int, sps[j].end as int))->0,
    )
}

/// The text reads as one or more recipes, and the loops of each are balanced.
pub open spec fn program_reads(w: Seq<char>) -> bool {
    match recipe_starts(w, text_start(w), text_stop(w)) {
        Some(st) => st.len() > 0 && forall|i: int|
            0 <= i < st.len() ==> balanced(#[trigger] recipe_sentences(w, st[i], text_stop(w))),
        None => false,
    }
}

/// Reads a Chef source text into a program.
///
/// It succeeds exactly when the text reads as one or more recipes whose
/// loops are balanced. The first stage fails exactly when the text does not
/// read as a run of recipes. On success the main recipe is the lifted form
/// of the first recipe of the text, with its title, and the auxiliary
/// recipes are keyed by lower-cased title, a later one replacing an earlier.
#[verifier::rlimit(40)]
pub fn parse(input: &str) -> (r: Result<ChefProgram, ParseError>)
    ensures
        r is Ok <==> program_reads(input@),
        r matches Err(ParseError::FirstStage(_, _)) <==> recipe_starts(
            input@,
            text_start(input@),
            text_stop(input@),
        ) is None,
        r matches Ok(p) ==> exists|first: ChefRecipe<CookingInstruction, CookingIngredient>|
            #[trigger] recipe_lifts(first, p.main) && recipe_reads(input@, first) && first.title@
                == title_text(
                input@,
                recipe_starts(input@, text_start(input@), text_stop(input@))->0[0],
                text_stop(input@),
            ) && recipe_laid_out(
                input@,
                recipe_starts(input@, text_start(input@), text_stop(input@))->0[0],
                text_stop(input@),
                first,
            ),
        r matches Ok(p) ==> auxiliaries_keyed(p.auxilary@),
{
    let recipes = stage_one::parser(input)?;
    let ghost rs = recipes@;
    let ghost w = input@;
    let ghost st = recipe_starts(w, text_start(w), text_stop(w))->0;
    proof {
        assert forall|i: int| 0 <= i < rs.len() implies views(#[trigger] rs[i].instructions@)
            == recipe_sentences(w, st[i], text_stop(w)) by {
            let v = rs[i].instructions@;
            assert(recipe_laid_out(w, st[i], text_stop(w), rs[i]));
            assert(recipe_reads(w, rs[i]));
            assert forall|j: int| 0 <= j < v.len() implies views(v)[j] == recipe_sentences(
                w,
                st[i],
                text_stop(w),
            )[j] by {
                assert(sentence_at(w, v[j]));
                assert(spans_of(v)[j] == v[j].1);
            }
            assert(views(v) =~= recipe_sentences(w, st[i], text_stop(w)));
        }
        if rs.len() > 0 {
            if all_balanced(rs) {
                assert forall|i: int| 0 <= i < st.len() implies balanced(
                    #[trigger] recipe_sentences(w, st[i], text_stop(w)),
                ) by {
                    assert(balanced(views(rs[i].instructions@)));
                }
            } else {
                let i = choose|i: int| 0 <= i < rs.len() && !balanced(views(#[trigger] rs[i].instructions@));
                assert(!balanced(recipe_sentences(w, st[i], text_stop(w))));
            }
        }
    }
    let program = stage_two::parse(recipes)?;
    assert(recipe_reads(input@, rs[0]));
    assert(recipe_lifts(rs[0], program.main));
    Ok(program)
}

} // verus!
