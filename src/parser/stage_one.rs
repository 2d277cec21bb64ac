//! The first stage: reading recipes and their method sentences from text.
//!
//! Each grammar rule is stated as a spec function over the characters of a
//! sentence, and the reader below is proved to follow it exactly.
use vstd::prelude::*;

use crate::parser::ast::{ChefRecipe, Span, Spanned, Verb};
use crate::parser::errors::ParseError;
use crate::parser::stage_one_ast::{
    CookingIngredient, CookingInstruction, CookingMeasure, MeasureType, MeasureUnit, Sentence,
};
use crate::text::{
    chars_of, has_at, int_at, is_space, lemma_space_end_bounds, lit_at, read_int, skip_space, space_end, string_of,
};

verus! {

/// The position just after `lit`, when `lit` stands at `p`.
pub open spec fn after(w: Seq<char>, p: int, lit: Seq<char>) -> Option<int> {
    if has_at(w, p, lit) {
        Some(p + lit.len())
    } else {
        None
    }
}

/// Skips `lit` at `p` when it stands there.
pub open spec fn skip_opt(w: Seq<char>, p: int, lit: Seq<char>) -> int {
    if has_at(w, p, lit) {
        p + lit.len()
    } else {
        p
    }
}

/// The position just after `lit`, when `lit` stands at `p`.
pub fn expect(w: &Vec<char>, p: usize, lit: &str) -> (r: Option<usize>)
    requires
        p <= w@.len(),
    ensures
        match after(w@, p as int, lit@) {
            Some(q) => r is Some && r->0 == q && p <= q <= w@.len(),
            None => r is None,
        },
{
    let len = w.len();
    if lit_at(w, p, lit) {
        let l = chars_of(lit);
        assert(p + l@.len() <= len);
        Some(p + l.len())
    } else {
        None
    }
}

/// Skips `lit` at `p` when it stands there.
pub fn skip_lit(w: &Vec<char>, p: usize, lit: &str) -> (r: usize)
    requires
        p <= w@.len(),
    ensures
        r == skip_opt(w@, p as int, lit@),
        p <= r <= w@.len(),
{
    match expect(w, p, lit) {
        Some(q) => q,
        None => p,
    }
}

/// Where an ingredient or recipe name must stop: a full stop, a line break,
/// or one of the words that lead into the next part of a sentence.
pub open spec fn stops_name(w: Seq<char>, q: int) -> bool {
    w[q] == '.' || w[q] == '\n' || has_at(w, q, "\r\n"@) || has_at(w, q, " into "@) || has_at(
        w,
        q,
        " from "@,
    ) || has_at(w, q, " to "@) || has_at(w, q, " until "@)
}

/// The end of the name that starts at `p`: the first place where it must stop.
pub open spec fn name_end(w: Seq<char>, p: int) -> int
    decreases w.len() - p,
{
    if p < 0 || p >= w.len() || stops_name(w, p) {
        p
    } else {
        name_end(w, p + 1)
    }
}

pub proof fn lemma_name_end_bounds(w: Seq<char>, p: int)
    requires
        0 <= p <= w.len(),
    ensures
        p <= name_end(w, p) <= w.len(),
    decreases w.len() - p,
{
    if p < w.len() && !stops_name(w, p) {
        lemma_name_end_bounds(w, p + 1);
    }
}

/// Finds the end of the name that starts at `p`.
pub fn read_name(w: &Vec<char>, p: usize) -> (r: usize)
    requires
        p <= w@.len(),
    ensures
        r == name_end(w@, p as int),
        p <= r <= w@.len(),
{
    let mut q = p;
    while q < w.len()
        invariant
            p <= q <= w@.len(),
            name_end(w@, p as int) == name_end(w@, q as int),
        decreases w.len() - q,
    {
        if w[q] == '.' || w[q] == '\n' || lit_at(w, q, "\r\n") || lit_at(w, q, " into ") || lit_at(
            w,
            q,
            " from ",
        ) || lit_at(w, q, " to ") || lit_at(w, q, " until ") {
            return q;
        }
        q = q + 1;
    }
    q
}

pub open spec fn is_letter(c: char) -> bool {
    ('a' <= c <= 'z') || ('A' <= c <= 'Z')
}

/// The end of the run of ASCII letters that starts at `p`.
pub open spec fn word_end(w: Seq<char>, p: int) -> int
    decreases w.len() - p,
{
    if p < 0 || p >= w.len() || !is_letter(w[p]) {
        p
    } else {
        word_end(w, p + 1)
    }
}

/// Finds the end of the run of ASCII letters that starts at `p`.
pub fn read_word(w: &Vec<char>, p: usize) -> (r: usize)
    requires
        p <= w@.len(),
    ensures
        r == word_end(w@, p as int),
        p <= r <= w@.len(),
{
    let mut q = p;
    while q < w.len() && (('a' <= w[q] && w[q] <= 'z') || ('A' <= w[q] && w[q] <= 'Z'))
        invariant
            p <= q <= w@.len(),
            word_end(w@, p as int) == word_end(w@, q as int),
        decreases w.len() - q,
    {
        q = q + 1;
    }
    q
}

/// The utensil index that an ordinal names: "1st" is the default utensil.
pub open spec fn utensil(n: usize) -> usize {
    if n <= 1 {
        0
    } else {
        n
    }
}

/// The position after an ordinal suffix at `p`.
pub open spec fn suffix_end(w: Seq<char>, p: int) -> Option<int> {
    if has_at(w, p, "th"@) {
        after(w, p, "th"@)
    } else if has_at(w, p, "st"@) {
        after(w, p, "st"@)
    } else if has_at(w, p, "nd"@) {
        after(w, p, "nd"@)
    } else {
        after(w, p, "rd"@)
    }
}

/// An ordinal such as "3rd", blanks around it skipped: the utensil it names
/// and the position after it.
pub open spec fn nth_at(w: Seq<char>, p: int) -> Option<(usize, int)> {
    match int_at(w, space_end(w, p)) {
        None => None,
        Some((v, q)) => match suffix_end(w, q) {
            None => None,
            Some(e) => Some((utensil(v), space_end(w, e))),
        },
    }
}

/// An optional ordinal: absent, it names the default utensil.
pub open spec fn opt_nth(w: Seq<char>, p: int) -> (usize, int) {
    match nth_at(w, p) {
        Some(x) => x,
        None => (0, p),
    }
}

/// Reads an ordinal at `p`.
pub fn nth(w: &Vec<char>, p: usize) -> (r: Option<(usize, usize)>)
    requires
        p <= w@.len(),
    ensures
        match nth_at(w@, p as int) {
            Some((n, q)) => (r matches Some((m, e)) && m == n && e == q && p <= q <= w@.len()),
            None => r is None,
        },
{
    let pos1 = skip_space(w, p);
    match read_int(w, pos1) {
        None => None,
        Some((v, q)) => {
            let e = if lit_at(w, q, "th") {
                expect(w, q, "th")
            } else if lit_at(w, q, "st") {
                expect(w, q, "st")
            } else if lit_at(w, q, "nd") {
                expect(w, q, "nd")
            } else {
                expect(w, q, "rd")
            };
            match e {
                None => None,
                Some(e) => {
                    let n = if v <= 1 {
                        0
                    } else {
                        v
                    };
                    Some((n, skip_space(w, e)))
                },
            }
        },
    }
}

/// Reads an optional ordinal at `p`.
pub fn read_opt_nth(w: &Vec<char>, p: usize) -> (r: (usize, usize))
    requires
        p <= w@.len(),
    ensures
        r.0 == opt_nth(w@, p as int).0,
        r.1 == opt_nth(w@, p as int).1,
        p <= r.1 <= w@.len(),
{
    match nth(w, p) {
        Some((n, q)) => {
            proof {
                lemma_space_end_bounds(w@, p as int);
            }
            (n, q)
        },
        None => (0, p),
    }
}

/// A mixing bowl named to the end of the sentence: `[the] [nth] mixing bowl`.
pub open spec fn bowl_end(w: Seq<char>, p: int) -> Option<usize> {
    let (n, q) = opt_nth(w, skip_opt(w, p, "the "@));
    match after(w, space_end(w, q), "mixing bowl"@) {
        Some(e) => if space_end(w, e) == w.len() {
            Some(n)
        } else {
            None
        },
        None => None,
    }
}

/// Reads `[the] [nth] mixing bowl` at `p`, up to the end of the sentence.
pub fn read_bowl_end(w: &Vec<char>, p: usize) -> (r: Option<usize>)
    requires
        p <= w@.len(),
    ensures
        r == bowl_end(w@, p as int),
{
    let pos1 = skip_lit(w, p, "the ");
    let (n, q) = read_opt_nth(w, pos1);
    let q1 = skip_space(w, q);
    match expect(w, q1, "mixing bowl") {
        Some(e) => if skip_space(w, e) == w.len() {
            Some(n)
        } else {
            None
        },
        None => None,
    }
}

/// An optional tail `kw [the] [nth] [mixing bowl]` that ends the sentence;
/// without it the default bowl is meant.
pub open spec fn opt_bowl_tail(w: Seq<char>, p: int, kw: Seq<char>) -> Option<usize> {
    if p == w.len() {
        Some(0)
    } else {
        match after(w, p, kw) {
            None => None,
            Some(q) => {
                let (n, q2) = opt_nth(w, skip_opt(w, q, "the "@));
                if skip_opt(w, q2, "mixing bowl"@) == w.len() {
                    Some(n)
                } else {
                    None
                }
            },
        }
    }
}

/// Reads an optional `kw [the] [nth] [mixing bowl]` at `p`, up to the end
/// of the sentence.
pub fn read_opt_bowl_tail(w: &Vec<char>, p: usize, kw: &str) -> (r: Option<usize>)
    requires
        p <= w@.len(),
    ensures
        r == opt_bowl_tail(w@, p as int, kw@),
{
    if p == w.len() {
        return Some(0);
    }
    match expect(w, p, kw) {
        None => None,
        Some(q) => {
            let q1 = skip_lit(w, q, "the ");
            let (n, q2) = read_opt_nth(w, q1);
            if skip_lit(w, q2, "mixing bowl") == w.len() {
                Some(n)
            } else {
                None
            }
        },
    }
}

/// What an optional instruction says.
pub open spec fn view_opt(r: Option<CookingInstruction>) -> Option<Sentence> {
    match r {
        Some(c) => Some(c@),
        None => None,
    }
}

/// `Take <name> from [the] refrigerator`
pub open spec fn rule_take(w: Seq<char>) -> Option<Sentence> {
    match after(w, 0, "Take "@) {
        None => None,
        Some(p) => {
            let q = name_end(w, p);
            match after(w, q, " from "@) {
                None => None,
                Some(r) => if after(w, skip_opt(w, r, "the "@), "refrigerator"@) == Some(
                    w.len() as int,
                ) {
                    Some(Sentence::Take(w.subrange(p, q)))
                } else {
                    None
                },
            }
        },
    }
}

fn take_sentence(w: &Vec<char>) -> (r: Option<CookingInstruction>)
    ensures
        view_opt(r) == rule_take(w@),
{
    match expect(w, 0, "Take ") {
        None => None,
        Some(p) => {
            let q = read_name(w, p);
            match expect(w, q, " from ") {
                None => None,
                Some(r) => {
                    let r1 = skip_lit(w, r, "the ");
                    match expect(w, r1, "refrigerator") {
                        Some(e) => if e == w.len() {
                            Some(CookingInstruction::Take(string_of(w, p, q)))
                        } else {
                            None
                        },
                        None => None,
                    }
                },
            }
        },
    }
}

/// `<verb> <name> into [the] [nth] mixing bowl`, for Put, Fold and Stir:
/// the name and the bowl.
pub open spec fn into_bowl(w: Seq<char>, verb: Seq<char>) -> Option<(Seq<char>, usize)> {
    match after(w, 0, verb) {
        None => None,
        Some(p) => {
            let q = name_end(w, p);
            match after(w, q, " into "@) {
                None => None,
                Some(r) => match bowl_end(w, r) {
                    Some(n) => Some((w.subrange(p, q), n)),
                    None => None,
                },
            }
        },
    }
}

fn read_into_bowl(w: &Vec<char>, verb: &str) -> (r: Option<(String, usize)>)
    ensures
        match into_bowl(w@, verb@) {
            Some((name, n)) => (r matches Some((s, b)) && s@ == name && b == n),
            None => r is None,
        },
{
    match expect(w, 0, verb) {
        None => None,
        Some(p) => {
            let q = read_name(w, p);
            match expect(w, q, " into ") {
                None => None,
                Some(r) => match read_bowl_end(w, r) {
                    Some(n) => Some((string_of(w, p, q), n)),
                    None => None,
                },
            }
        },
    }
}

/// `<verb> <name> [<kw> [the] [nth] [mixing bowl]]`, for the four arithmetic
/// sentences: the name and the bowl.
pub open spec fn arith(w: Seq<char>, verb: Seq<char>, kw: Seq<char>) -> Option<
    (Seq<char>, usize),
> {
    match after(w, 0, verb) {
        None => None,
        Some(p) => {
            let q = name_end(w, p);
            match opt_bowl_tail(w, q, kw) {
                Some(n) => Some((w.subrange(p, q), n)),
                None => None,
            }
        },
    }
}

fn read_arith(w: &Vec<char>, verb: &str, kw: &str) -> (r: Option<(String, usize)>)
    ensures
        match arith(w@, verb@, kw@) {
            Some((name, n)) => (r matches Some((s, b)) && s@ == name && b == n),
            None => r is None,
        },
{
    match expect(w, 0, verb) {
        None => None,
        Some(p) => {
            let q = read_name(w, p);
            match read_opt_bowl_tail(w, q, kw) {
                Some(n) => Some((string_of(w, p, q), n)),
                None => None,
            }
        },
    }
}

/// `Add dry ingredients [to [the] [nth] [mixing bowl]]`
pub open spec fn rule_add_dry(w: Seq<char>) -> Option<Sentence> {
    match after(w, 0, "Add dry ingredients"@) {
        None => None,
        Some(p) => match opt_bowl_tail(w, p, " to "@) {
            Some(n) => Some(Sentence::AddDryIngredients(n)),
            None => None,
        },
    }
}

fn add_dry_sentence(w: &Vec<char>) -> (r: Option<CookingInstruction>)
    ensures
        view_opt(r) == rule_add_dry(w@),
{
    match expect(w, 0, "Add dry ingredients") {
        None => None,
        Some(p) => match read_opt_bowl_tail(w, p, " to ") {
            Some(n) => Some(CookingInstruction::AddDryIngredients(n)),
            None => None,
        },
    }
}

/// `Liquefy ` or its old spelling `Liquify `.
pub open spec fn liquefy_start(w: Seq<char>) -> Option<int> {
    if has_at(w, 0, "Liquefy "@) {
        after(w, 0, "Liquefy "@)
    } else {
        after(w, 0, "Liquify "@)
    }
}

fn read_liquefy_start(w: &Vec<char>) -> (r: Option<usize>)
    ensures
        match liquefy_start(w@) {
            Some(q) => r is Some && r->0 == q && q <= w@.len(),
            None => r is None,
        },
{
    if lit_at(w, 0, "Liquefy ") {
        expect(w, 0, "Liquefy ")
    } else {
        expect(w, 0, "Liquify ")
    }
}

/// `Liquefy contents of [the] [nth] mixing bowl`
pub open spec fn rule_liquefy_contents(w: Seq<char>) -> Option<Sentence> {
    match liquefy_start(w) {
        None => None,
        Some(p) => match after(w, p, "contents of "@) {
            None => None,
            Some(q) => match bowl_end(w, q) {
                Some(n) => Some(Sentence::LiquefyContents(n)),
                None => None,
            },
        },
    }
}

fn liquefy_contents_sentence(w: &Vec<char>) -> (r: Option<CookingInstruction>)
    ensures
        view_opt(r) == rule_liquefy_contents(w@),
{
    match read_liquefy_start(w) {
        None => None,
        Some(p) => match expect(w, p, "contents of ") {
            None => None,
            Some(q) => match read_bowl_end(w, q) {
                Some(n) => Some(CookingInstruction::LiquefyContents(n)),
                None => None,
            },
        },
    }
}

/// `Liquefy <name>`
pub open spec fn rule_liquefy(w: Seq<char>) -> Option<Sentence> {
    match liquefy_start(w) {
        None => None,
        Some(p) => if name_end(w, p) == w.len() {
            Some(Sentence::Liquefy(w.subrange(p, w.len() as int)))
        } else {
            None
        },
    }
}

fn liquefy_sentence(w: &Vec<char>) -> (r: Option<CookingInstruction>)
    ensures
        view_opt(r) == rule_liquefy(w@),
{
    match read_liquefy_start(w) {
        None => None,
        Some(p) => if read_name(w, p) == w.len() {
            Some(CookingInstruction::Liquefy(string_of(w, p, w.len())))
        } else {
            None
        },
    }
}

/// `Stir [the] [nth] [mixing bowl ]for <int> minutes`
pub open spec fn rule_stir(w: Seq<char>) -> Option<Sentence> {
    match after(w, 0, "Stir "@) {
        None => None,
        Some(p) => {
            let (n, q) = opt_nth(w, skip_opt(w, p, "the "@));
            match after(w, skip_opt(w, q, "mixing bowl "@), "for "@) {
                None => None,
                Some(r) => match int_at(w, r) {
                    None => None,
                    Some((m, e)) => if after(w, e, " minutes"@) == Some(w.len() as int) {
                        Some(Sentence::Stir(n, m))
                    } else {
                        None
                    },
                },
            }
        },
    }
}

fn stir_sentence(w: &Vec<char>) -> (r: Option<CookingInstruction>)
    ensures
        view_opt(r) == rule_stir(w@),
{
    match expect(w, 0, "Stir ") {
        None => None,
        Some(p) => {
            let pos1 = skip_lit(w, p, "the ");
            let (n, q) = read_opt_nth(w, pos1);
            let q1 = skip_lit(w, q, "mixing bowl ");
            match expect(w, q1, "for ") {
                None => None,
                Some(r) => match read_int(w, r) {
                    None => None,
                    Some((m, e)) => match expect(w, e, " minutes") {
                        Some(f) => if f == w.len() {
                            Some(CookingInstruction::Stir(n, m))
                        } else {
                            None
                        },
                        None => None,
                    },
                },
            }
        },
    }
}

/// `Mix [[the] [nth] mixing bowl ]well`
pub open spec fn rule_mix(w: Seq<char>) -> Option<Sentence> {
    match after(w, 0, "Mix "@) {
        None => None,
        Some(p) => {
            let (n, q) = opt_nth(w, skip_opt(w, p, "the "@));
            let (b, r) = match after(w, q, "mixing bowl "@) {
                Some(r) => (n, r),
                None => (0usize, p),
            };
            if after(w, r, "well"@) == Some(w.len() as int) {
                Some(Sentence::Mix(b))
            } else {
                None
            }
        },
    }
}

fn mix_sentence(w: &Vec<char>) -> (r: Option<CookingInstruction>)
    ensures
        view_opt(r) == rule_mix(w@),
{
    match expect(w, 0, "Mix ") {
        None => None,
        Some(p) => {
            let pos1 = skip_lit(w, p, "the ");
            let (n, q) = read_opt_nth(w, pos1);
            let (b, r) = match expect(w, q, "mixing bowl ") {
                Some(r) => (n, r),
                None => (0usize, p),
            };
            match expect(w, r, "well") {
                Some(e) => if e == w.len() {
                    Some(CookingInstruction::Mix(b))
                } else {
                    None
                },
                None => None,
            }
        },
    }
}

/// `Clean [the] [nth] mixing bowl`
pub open spec fn rule_clean(w: Seq<char>) -> Option<Sentence> {
    match after(w, 0, "Clean "@) {
        None => None,
        Some(p) => match bowl_end(w, p) {
            Some(n) => Some(Sentence::Clean(n)),
            None => None,
        },
    }
}

fn clean_sentence(w: &Vec<char>) -> (r: Option<CookingInstruction>)
    ensures
        view_opt(r) == rule_clean(w@),
{
    match expect(w, 0, "Clean ") {
        None => None,
        Some(p) => match read_bowl_end(w, p) {
            Some(n) => Some(CookingInstruction::Clean(n)),
            None => None,
        },
    }
}

/// `Pour contents of [the] [nth] mixing bowl into [the] [pth] baking dish`
pub open spec fn rule_pour(w: Seq<char>) -> Option<Sentence> {
    match after(w, 0, "Pour contents of "@) {
        None => None,
        Some(p) => {
            let (n, q) = opt_nth(w, skip_opt(w, p, "the "@));
            match after(w, q, "mixing bowl into "@) {
                None => None,
                Some(r) => {
                    let (d, e) = opt_nth(w, skip_opt(w, r, "the "@));
                    if after(w, e, "baking dish"@) == Some(w.len() as int) {
                        Some(Sentence::Pour(n, d))
                    } else {
                        None
                    }
                },
            }
        },
    }
}

fn pour_sentence(w: &Vec<char>) -> (r: Option<CookingInstruction>)
    ensures
        view_opt(r) == rule_pour(w@),
{
    match expect(w, 0, "Pour contents of ") {
        None => None,
        Some(p) => {
            let pos1 = skip_lit(w, p, "the ");
            let (n, q) = read_opt_nth(w, pos1);
            match expect(w, q, "mixing bowl into ") {
                None => None,
                Some(r) => {
                    let r1 = skip_lit(w, r, "the ");
                    let (d, e) = read_opt_nth(w, r1);
                    match expect(w, e, "baking dish") {
                        Some(f) => if f == w.len() {
                            Some(CookingInstruction::Pour(n, d))
                        } else {
                            None
                        },
                        None => None,
                    }
                },
            }
        },
    }
}

/// `Set aside`
pub open spec fn rule_set_aside(w: Seq<char>) -> Option<Sentence> {
    if after(w, 0, "Set aside"@) == Some(w.len() as int) {
        Some(Sentence::SetAside)
    } else {
        None
    }
}

fn set_aside_sentence(w: &Vec<char>) -> (r: Option<CookingInstruction>)
    ensures
        view_opt(r) == rule_set_aside(w@),
{
    match expect(w, 0, "Set aside") {
        Some(e) => if e == w.len() {
            Some(CookingInstruction::SetAside)
        } else {
            None
        },
        None => None,
    }
}

/// `Serve with <recipe-name>`
pub open spec fn rule_serve_with(w: Seq<char>) -> Option<Sentence> {
    match after(w, 0, "Serve with "@) {
        None => None,
        Some(p) => {
            let pos1 = space_end(w, p);
            let q = name_end(w, pos1);
            if space_end(w, q) == w.len() {
                Some(Sentence::ServeWith(w.subrange(pos1, q)))
            } else {
                None
            }
        },
    }
}

fn serve_with_sentence(w: &Vec<char>) -> (r: Option<CookingInstruction>)
    ensures
        view_opt(r) == rule_serve_with(w@),
{
    match expect(w, 0, "Serve with ") {
        None => None,
        Some(p) => {
            let pos1 = skip_space(w, p);
            let q = read_name(w, pos1);
            if skip_space(w, q) == w.len() {
                Some(CookingInstruction::ServeWith(string_of(w, pos1, q)))
            } else {
                None
            }
        },
    }
}

/// `Refrigerate [for <int> hours]`
pub open spec fn rule_refrigerate(w: Seq<char>) -> Option<Sentence> {
    match after(w, 0, "Refrigerate"@) {
        None => None,
        Some(p) => if p == w.len() {
            Some(Sentence::Refrigerate(None))
        } else {
            match after(w, p, " for "@) {
                None => None,
                Some(q) => match int_at(w, q) {
                    None => None,
                    Some((h, e)) => if after(w, e, " hours"@) == Some(w.len() as int) {
                        Some(Sentence::Refrigerate(Some(h)))
                    } else {
                        None
                    },
                },
            }
        },
    }
}

fn refrigerate_sentence(w: &Vec<char>) -> (r: Option<CookingInstruction>)
    ensures
        view_opt(r) == rule_refrigerate(w@),
{
    match expect(w, 0, "Refrigerate") {
        None => None,
        Some(p) => if p == w.len() {
            Some(CookingInstruction::Refrigerate(None))
        } else {
            match expect(w, p, " for ") {
                None => None,
                Some(q) => match read_int(w, q) {
                    None => None,
                    Some((h, e)) => match expect(w, e, " hours") {
                        Some(f) => if f == w.len() {
                            Some(CookingInstruction::Refrigerate(Some(h)))
                        } else {
                            None
                        },
                        None => None,
                    },
                },
            }
        },
    }
}

/// `Serves <int>` from `p` to the end: the number of dishes.
pub open spec fn serves_at(w: Seq<char>, p: int) -> Option<usize> {
    match after(w, p, "Serves "@) {
        None => None,
        Some(q) => match int_at(w, q) {
            Some((n, e)) => if e == w.len() {
                Some(n)
            } else {
                None
            },
            None => None,
        },
    }
}

fn read_serves(w: &Vec<char>, p: usize) -> (r: Option<usize>)
    requires
        p <= w@.len(),
    ensures
        r == serves_at(w@, p as int),
{
    match expect(w, p, "Serves ") {
        None => None,
        Some(q) => match read_int(w, q) {
            Some((n, e)) => if e == w.len() {
                Some(n)
            } else {
                None
            },
            None => None,
        },
    }
}

/// `<Verb> [[the] <name> ]until <verbed>`
pub open spec fn rule_verb_until(w: Seq<char>) -> Option<Sentence> {
    let v = word_end(w, 0);
    if v == 0 {
        None
    } else {
        match after(w, v, " "@) {
            None => None,
            Some(p) => {
                let pos1 = skip_opt(w, p, "the "@);
                let q = name_end(w, pos1);
                let (ing, r) = match after(w, q, " "@) {
                    Some(r) => (Some(w.subrange(pos1, q)), r),
                    None => (None, p),
                };
                match after(w, r, "until "@) {
                    None => None,
                    Some(e) => if e < w.len() && word_end(w, e) == w.len() {
                        Some(Sentence::VerbUntil(ing, w.subrange(e, w.len() as int)))
                    } else {
                        None
                    },
                }
            },
        }
    }
}

fn verb_until_sentence(w: &Vec<char>) -> (r: Option<CookingInstruction>)
    ensures
        view_opt(r) == rule_verb_until(w@),
{
    let v = read_word(w, 0);
    if v == 0 {
        return None;
    }
    match expect(w, v, " ") {
        None => None,
        Some(p) => {
            let pos1 = skip_lit(w, p, "the ");
            let q = read_name(w, pos1);
            let (ing, r) = match expect(w, q, " ") {
                Some(r) => (Some(string_of(w, pos1, q)), r),
                None => (None, p),
            };
            match expect(w, r, "until ") {
                None => None,
                Some(e) => if e < w.len() && read_word(w, e) == w.len() {
                    let until = Verb(string_of(w, e, w.len()));
                    Some(CookingInstruction::VerbUntil(ing, until))
                } else {
                    None
                },
            }
        },
    }
}

/// `<Verb> [the] <name>`
pub open spec fn rule_verb(w: Seq<char>) -> Option<Sentence> {
    let v = word_end(w, 0);
    if v == 0 {
        None
    } else {
        match after(w, v, " "@) {
            None => None,
            Some(p) => {
                let pos1 = skip_opt(w, p, "the "@);
                if name_end(w, pos1) == w.len() {
                    Some(Sentence::Verb(w.subrange(0, v), w.subrange(pos1, w.len() as int)))
                } else {
                    None
                }
            },
        }
    }
}

fn verb_sentence(w: &Vec<char>) -> (r: Option<CookingInstruction>)
    ensures
        view_opt(r) == rule_verb(w@),
{
    let v = read_word(w, 0);
    if v == 0 {
        return None;
    }
    match expect(w, v, " ") {
        None => None,
        Some(p) => {
            let pos1 = skip_lit(w, p, "the ");
            if read_name(w, pos1) == w.len() {
                Some(CookingInstruction::Verb(Verb(string_of(w, 0, v)), string_of(w, pos1, w.len())))
            } else {
                None
            }
        },
    }
}

/// `Put <name> into [the] [nth] mixing bowl`
pub open spec fn rule_put(w: Seq<char>) -> Option<Sentence> {
    match into_bowl(w, "Put "@) {
        Some((i, n)) => Some(Sentence::Put(i, n)),
        None => None,
    }
}

fn put_sentence(w: &Vec<char>) -> (r: Option<CookingInstruction>)
    ensures
        view_opt(r) == rule_put(w@),
{
    match read_into_bowl(w, "Put ") {
        Some((i, n)) => Some(CookingInstruction::Put(i, n)),
        None => None,
    }
}

/// `Fold <name> into [the] [nth] mixing bowl`
pub open spec fn rule_fold(w: Seq<char>) -> Option<Sentence> {
    match into_bowl(w, "Fold "@) {
        Some((i, n)) => Some(Sentence::Fold(i, n)),
        None => None,
    }
}

fn fold_sentence(w: &Vec<char>) -> (r: Option<CookingInstruction>)
    ensures
        view_opt(r) == rule_fold(w@),
{
    match read_into_bowl(w, "Fold ") {
        Some((i, n)) => Some(CookingInstruction::Fold(i, n)),
        None => None,
    }
}

/// `Add <name> [to [the] [nth] [mixing bowl]]`
pub open spec fn rule_add(w: Seq<char>) -> Option<Sentence> {
    match arith(w, "Add "@, " to "@) {
        Some((i, n)) => Some(Sentence::Add(i, n)),
        None => None,
    }
}

fn add_sentence(w: &Vec<char>) -> (r: Option<CookingInstruction>)
    ensures
        view_opt(r) == rule_add(w@),
{
    match read_arith(w, "Add ", " to ") {
        Some((i, n)) => Some(CookingInstruction::Add(i, n)),
        None => None,
    }
}

/// `Remove <name> [from [the] [nth] [mixing bowl]]`
pub open spec fn rule_remove(w: Seq<char>) -> Option<Sentence> {
    match arith(w, "Remove "@, " from "@) {
        Some((i, n)) => Some(Sentence::Remove(i, n)),
        None => None,
    }
}

fn remove_sentence(w: &Vec<char>) -> (r: Option<CookingInstruction>)
    ensures
        view_opt(r) == rule_remove(w@),
{
    match read_arith(w, "Remove ", " from ") {
        Some((i, n)) => Some(CookingInstruction::Remove(i, n)),
        None => None,
    }
}

/// `Combine <name> [into [the] [nth] [mixing bowl]]`
pub open spec fn rule_combine(w: Seq<char>) -> Option<Sentence> {
    match arith(w, "Combine "@, " into "@) {
        Some((i, n)) => Some(Sentence::Combine(i, n)),
        None => None,
    }
}

fn combine_sentence(w: &Vec<char>) -> (r: Option<CookingInstruction>)
    ensures
        view_opt(r) == rule_combine(w@),
{
    match read_arith(w, "Combine ", " into ") {
        Some((i, n)) => Some(CookingInstruction::Combine(i, n)),
        None => None,
    }
}

/// `Divide <name> [into [the] [nth] [mixing bowl]]`
pub open spec fn rule_divide(w: Seq<char>) -> Option<Sentence> {
    match arith(w, "Divide "@, " into "@) {
        Some((i, n)) => Some(Sentence::Divide(i, n)),
        None => None,
    }
}

fn divide_sentence(w: &Vec<char>) -> (r: Option<CookingInstruction>)
    ensures
        view_opt(r) == rule_divide(w@),
{
    match read_arith(w, "Divide ", " into ") {
        Some((i, n)) => Some(CookingInstruction::Divide(i, n)),
        None => None,
    }
}

/// `Stir <name> into [the] [nth] mixing bowl`
pub open spec fn rule_stir_ingredient(w: Seq<char>) -> Option<Sentence> {
    match into_bowl(w, "Stir "@) {
        Some((i, n)) => Some(Sentence::StirIngredient(i, n)),
        None => None,
    }
}

fn stir_ingredient_sentence(w: &Vec<char>) -> (r: Option<CookingInstruction>)
    ensures
        view_opt(r) == rule_stir_ingredient(w@),
{
    match read_into_bowl(w, "Stir ") {
        Some((i, n)) => Some(CookingInstruction::StirIngredient(i, n)),
        None => None,
    }
}

/// `Serves <int>`
pub open spec fn rule_serves(w: Seq<char>) -> Option<Sentence> {
    match serves_at(w, 0) {
        Some(n) => Some(Sentence::Serves(n)),
        None => None,
    }
}

fn serves_sentence(w: &Vec<char>) -> (r: Option<CookingInstruction>)
    ensures
        view_opt(r) == rule_serves(w@),
{
    match read_serves(w, 0) {
        Some(n) => Some(CookingInstruction::Serves(n)),
        None => None,
    }
}

/// What a method sentence says: the first rule, in this order, that reads
/// the whole sentence. The order matters where sentences share a start.
#[verifier::opaque]
pub open spec fn read_sentence(w: Seq<char>) -> Option<Sentence> {
    if rule_take(w) is Some {
        rule_take(w)
    } else if rule_put(w) is Some {
        rule_put(w)
    } else if rule_fold(w) is Some {
        rule_fold(w)
    } else if rule_add_dry(w) is Some {
        rule_add_dry(w)
    } else if rule_add(w) is Some {
        rule_add(w)
    } else if rule_remove(w) is Some {
        rule_remove(w)
    } else if rule_combine(w) is Some {
        rule_combine(w)
    } else if rule_divide(w) is Some {
        rule_divide(w)
    } else if rule_liquefy_contents(w) is Some {
        rule_liquefy_contents(w)
    } else if rule_liquefy(w) is Some {
        rule_liquefy(w)
    } else if rule_stir(w) is Some {
        rule_stir(w)
    } else if rule_stir_ingredient(w) is Some {
        rule_stir_ingredient(w)
    } else if rule_mix(w) is Some {
        rule_mix(w)
    } else if rule_clean(w) is Some {
        rule_clean(w)
    } else if rule_pour(w) is Some {
        rule_pour(w)
    } else if rule_set_aside(w) is Some {
        rule_set_aside(w)
    } else if rule_serve_with(w) is Some {
        rule_serve_with(w)
    } else if rule_refrigerate(w) is Some {
        rule_refrigerate(w)
    } else if rule_serves(w) is Some {
        rule_serves(w)
    } else if rule_verb_until(w) is Some {
        rule_verb_until(w)
    } else if rule_verb(w) is Some {
        rule_verb(w)
    } else {
        None
    }
}

/// Reads one method sentence, given as its characters.
pub fn read_instruction(w: &Vec<char>) -> (r: Option<CookingInstruction>)
    ensures
        view_opt(r) == read_sentence(w@),
{
    proof {
        reveal(read_sentence);
    }
    let r = take_sentence(w);
    if r.is_some() {
        return r;
    }
    let r = put_sentence(w);
    if r.is_some() {
        return r;
    }
    let r = fold_sentence(w);
    if r.is_some() {
        return r;
    }
    let r = add_dry_sentence(w);
    if r.is_some() {
        return r;
    }
    let r = add_sentence(w);
    if r.is_some() {
        return r;
    }
    let r = remove_sentence(w);
    if r.is_some() {
        return r;
    }
    let r = combine_sentence(w);
    if r.is_some() {
        return r;
    }
    let r = divide_sentence(w);
    if r.is_some() {
        return r;
    }
    let r = liquefy_contents_sentence(w);
    if r.is_some() {
        return r;
    }
    let r = liquefy_sentence(w);
    if r.is_some() {
        return r;
    }
    let r = stir_sentence(w);
    if r.is_some() {
        return r;
    }
    let r = stir_ingredient_sentence(w);
    if r.is_some() {
        return r;
    }
    let r = mix_sentence(w);
    if r.is_some() {
        return r;
    }
    let r = clean_sentence(w);
    if r.is_some() {
        return r;
    }
    let r = pour_sentence(w);
    if r.is_some() {
        return r;
    }
    let r = set_aside_sentence(w);
    if r.is_some() {
        return r;
    }
    let r = serve_with_sentence(w);
    if r.is_some() {
        return r;
    }
    let r = refrigerate_sentence(w);
    if r.is_some() {
        return r;
    }
    let r = serves_sentence(w);
    if r.is_some() {
        return r;
    }
    let r = verb_until_sentence(w);
    if r.is_some() {
        return r;
    }
    let r = verb_sentence(w);
    if r.is_some() {
        return r;
    }
    None
}

/// The word `w[a..b]` is `lit`.
pub open spec fn word_is(w: Seq<char>, a: int, b: int, lit: Seq<char>) -> bool {
    after(w, a, lit) == Some(b)
}

fn is_word(w: &Vec<char>, a: usize, b: usize, lit: &str) -> (r: bool)
    requires
        a <= w@.len(),
    ensures
        r == word_is(w@, a as int, b as int, lit@),
{
    match expect(w, a, lit) {
        Some(e) => e == b,
        None => false,
    }
}

/// The unit that the word `w[a..b]` names, if any.
pub open spec fn unit_named(w: Seq<char>, a: int, b: int) -> Option<MeasureUnit> {
    if word_is(w, a, b, "g"@) {
        Some(MeasureUnit::Grams)
    } else if word_is(w, a, b, "kg"@) {
        Some(MeasureUnit::Kilograms)
    } else if word_is(w, a, b, "pinch"@) {
        Some(MeasureUnit::Pinches)
    } else if word_is(w, a, b, "pinches"@) {
        Some(MeasureUnit::Pinches)
    } else if word_is(w, a, b, "ml"@) {
        Some(MeasureUnit::Milliliters)
    } else if word_is(w, a, b, "l"@) {
        Some(MeasureUnit::Liters)
    } else if word_is(w, a, b, "dash"@) {
        Some(MeasureUnit::Dashes)
    } else if word_is(w, a, b, "dashes"@) {
        Some(MeasureUnit::Dashes)
    } else if word_is(w, a, b, "cup"@) {
        Some(MeasureUnit::Cups)
    } else if word_is(w, a, b, "cups"@) {
        Some(MeasureUnit::Cups)
    } else if word_is(w, a, b, "tsp"@) {
        Some(MeasureUnit::Teaspoons)
    } else if word_is(w, a, b, "teaspoon"@) {
        Some(MeasureUnit::Teaspoons)
    } else if word_is(w, a, b, "teaspoons"@) {
        Some(MeasureUnit::Teaspoons)
    } else if word_is(w, a, b, "tbsp"@) {
        Some(MeasureUnit::Tablespoons)
    } else if word_is(w, a, b, "tablespoon"@) {
        Some(MeasureUnit::Tablespoons)
    } else if word_is(w, a, b, "tablespoons"@) {
        Some(MeasureUnit::Tablespoons)
    } else {
        None
    }
}

/// Reads the unit word `w[a..b]`.
pub fn measure_unit(w: &Vec<char>, a: usize, b: usize) -> (r: Option<MeasureUnit>)
    requires
        a <= w@.len(),
    ensures
        r == unit_named(w@, a as int, b as int),
{
    if is_word(w, a, b, "g") {
        Some(MeasureUnit::Grams)
    } else if is_word(w, a, b, "kg") {
        Some(MeasureUnit::Kilograms)
    } else if is_word(w, a, b, "pinch") {
        Some(MeasureUnit::Pinches)
    } else if is_word(w, a, b, "pinches") {
        Some(MeasureUnit::Pinches)
    } else if is_word(w, a, b, "ml") {
        Some(MeasureUnit::Milliliters)
    } else if is_word(w, a, b, "l") {
        Some(MeasureUnit::Liters)
    } else if is_word(w, a, b, "dash") {
        Some(MeasureUnit::Dashes)
    } else if is_word(w, a, b, "dashes") {
        Some(MeasureUnit::Dashes)
    } else if is_word(w, a, b, "cup") {
        Some(MeasureUnit::Cups)
    } else if is_word(w, a, b, "cups") {
        Some(MeasureUnit::Cups)
    } else if is_word(w, a, b, "tsp") {
        Some(MeasureUnit::Teaspoons)
    } else if is_word(w, a, b, "teaspoon") {
        Some(MeasureUnit::Teaspoons)
    } else if is_word(w, a, b, "teaspoons") {
        Some(MeasureUnit::Teaspoons)
    } else if is_word(w, a, b, "tbsp") {
        Some(MeasureUnit::Tablespoons)
    } else if is_word(w, a, b, "tablespoon") {
        Some(MeasureUnit::Tablespoons)
    } else if is_word(w, a, b, "tablespoons") {
        Some(MeasureUnit::Tablespoons)
    } else {
        None
    }
}

/// The measure type that the word `w[a..b]` names, if any.
pub open spec fn measure_type_named(w: Seq<char>, a: int, b: int) -> Option<MeasureType> {
    if word_is(w, a, b, "heaped"@) {
        Some(MeasureType::Heaped)
    } else if word_is(w, a, b, "level"@) {
        Some(MeasureType::Level)
    } else {
        None
    }
}

/// Reads the measure type word `w[a..b]`.
pub fn measure_type(w: &Vec<char>, a: usize, b: usize) -> (r: Option<MeasureType>)
    requires
        a <= w@.len(),
    ensures
        r == measure_type_named(w@, a as int, b as int),
{
    if is_word(w, a, b, "heaped") {
        Some(MeasureType::Heaped)
    } else if is_word(w, a, b, "level") {
        Some(MeasureType::Level)
    } else {
        None
    }
}

/// A word of letters at `p` that a blank follows: where it ends.
pub open spec fn spaced_word(w: Seq<char>, p: int) -> Option<int> {
    let e = word_end(w, p);
    if e < w.len() && is_space(w[e]) {
        Some(e)
    } else {
        None
    }
}

/// An ingredient line without its line break:
/// `[initial-value] [[measure-type] unit] name`, the name not empty.
/// The parts are the initial value, the measure and the name.
pub open spec fn ingredient_line(w: Seq<char>) -> Option<
    (Option<usize>, Option<CookingMeasure>, Seq<char>),
> {
    let (v, pos0) = match int_at(w, 0) {
        Some((v, e)) => if e < w.len() && is_space(w[e]) {
            (Some(v), space_end(w, e))
        } else {
            (None, 0)
        },
        None => (None, 0),
    };
    let (t, pos1) = match spaced_word(w, pos0) {
        Some(e) => match measure_type_named(w, pos0, e) {
            Some(t) => (Some(t), space_end(w, e)),
            None => (None, pos0),
        },
        None => (None, pos0),
    };
    let (m, pos2) = match spaced_word(w, pos1) {
        Some(e) => match unit_named(w, pos1, e) {
            Some(u) => (Some(CookingMeasure { measure_type: t, unit: u }), space_end(w, e)),
            None => (None, pos0),
        },
        None => (None, pos0),
    };
    if pos2 < w.len() {
        Some((v, m, w.subrange(pos2, w.len() as int)))
    } else {
        None
    }
}

pub open spec fn ingredient_view(i: CookingIngredient) -> (
    Option<usize>,
    Option<CookingMeasure>,
    Seq<char>,
) {
    (i.initial_value, i.measure, i.name@)
}

fn read_spaced_word(w: &Vec<char>, p: usize) -> (r: Option<usize>)
    requires
        p <= w@.len(),
    ensures
        match spaced_word(w@, p as int) {
            Some(e) => r == Some(e as usize) && p <= e < w@.len(),
            None => r is None,
        },
{
    let e = read_word(w, p);
    if e < w.len() && (w[e] == ' ' || w[e] == '\t' || w[e] == '\n' || w[e] == '\r' || w[e]
        == '\x0b' || w[e] == '\x0c') {
        Some(e)
    } else {
        None
    }
}

/// Reads an ingredient line, given without its line break.
pub fn read_ingredient(w: &Vec<char>) -> (r: Option<CookingIngredient>)
    ensures
        match ingredient_line(w@) {
            Some(x) => r matches Some(i) && ingredient_view(i) == x,
            None => r is None,
        },
{
    let (v, pos0) = match read_int(w, 0) {
        Some((v, e)) => if e < w.len() && (w[e] == ' ' || w[e] == '\t' || w[e] == '\n' || w[e]
            == '\r' || w[e] == '\x0b' || w[e] == '\x0c') {
            (Some(v), skip_space(w, e))
        } else {
            (None, 0)
        },
        None => (None, 0),
    };
    let (t, pos1) = match read_spaced_word(w, pos0) {
        Some(e) => match measure_type(w, pos0, e) {
            Some(t) => (Some(t), skip_space(w, e)),
            None => (None, pos0),
        },
        None => (None, pos0),
    };
    let (m, pos2) = match read_spaced_word(w, pos1) {
        Some(e) => match measure_unit(w, pos1, e) {
            Some(u) => (Some(CookingMeasure { measure_type: t, unit: u }), skip_space(w, e)),
            None => (None, pos0),
        },
        None => (None, pos0),
    };
    if pos2 < w.len() {
        Some(CookingIngredient { initial_value: v, measure: m, name: string_of(w, pos2, w.len()) })
    } else {
        None
    }
}

/// The sentence at a span reads as the instruction stored with it.
pub open spec fn sentence_at(w: Seq<char>, s: Spanned<CookingInstruction>) -> bool {
    &&& s.1.start <= s.1.end <= w.len()
    &&& read_sentence(w.subrange(s.1.start as int, s.1.end as int)) == Some(s.0@)
}

/// The line at a span reads as the ingredient stored with it.
pub open spec fn ingredient_at(w: Seq<char>, s: Spanned<CookingIngredient>) -> bool {
    &&& s.1.start <= s.1.end <= w.len()
    &&& ingredient_line(w.subrange(s.1.start as int, s.1.end as int)) == Some(
        ingredient_view(s.0),
    )
}

/// The text at a span ends with a full stop.
pub open spec fn ends_at_stop(w: Seq<char>, a: Span) -> bool {
    a.end < w.len() && w[a.end as int] == '.'
}

/// The next sentence starts at `p`, after the full stop that ends the one
/// at `a` and a single blank: a space or a line break.
pub open spec fn starts_after(w: Seq<char>, a: Span, p: int) -> bool {
    ||| p == a.end + 2 && (w[a.end + 1] == ' ' || w[a.end + 1] == '\n')
    ||| p == a.end + 3 && w[a.end + 1] == '\r' && w[a.end + 2] == '\n'
}

/// Sentence `b` comes right after sentence `a`: nothing is skipped between.
pub open spec fn follows(w: Seq<char>, a: Span, b: Span) -> bool {
    ends_at_stop(w, a) && starts_after(w, a, b.start as int)
}

/// Each sentence ends with a full stop, and each follows the one before
/// with only that full stop and one blank between them.
pub open spec fn sentences_joined(w: Seq<char>, v: Seq<Spanned<CookingInstruction>>) -> bool {
    &&& forall|i: int| 0 <= i < v.len() ==> ends_at_stop(w, #[trigger] v[i].1)
    &&& forall|i: int|
        #![trigger v[i], v[i + 1]]
        0 <= i && i + 1 < v.len() ==> follows(w, v[i].1, v[i + 1].1)
}

/// Every sentence, ingredient line and `Serves` line of a recipe is the
/// reading of the source text at its span, and the sentences of the method
/// follow one another with nothing skipped.
pub open spec fn recipe_reads(w: Seq<char>, r: ChefRecipe<CookingInstruction, CookingIngredient>) -> bool {
    &&& forall|i: int| 0 <= i < r.instructions@.len() ==> sentence_at(w, #[trigger] r.instructions@[i])
    &&& sentences_joined(w, r.instructions@)
    &&& forall|i: int| 0 <= i < r.ingredients@.len() ==> ingredient_at(w, #[trigger] r.ingredients@[i])
    &&& r.serves matches Some(s) ==> s.1.start <= s.1.end <= w.len() && serves_at(
        w.subrange(s.1.start as int, s.1.end as int),
        0,
    ) == Some(s.0)
}

/// The characters `w[lo..hi]` as a vector of their own.
pub fn slice_of(w: &Vec<char>, lo: usize, hi: usize) -> (r: Vec<char>)
    requires
        lo <= hi <= w@.len(),
    ensures
        r@ == w@.subrange(lo as int, hi as int),
{
    let mut r: Vec<char> = Vec::new();
    let mut i = lo;
    while i < hi
        invariant
            lo <= i <= hi <= w@.len(),
            r@ == w@.subrange(lo as int, i as int),
        decreases hi - i,
    {
        r.push(w[i]);
        i = i + 1;
    }
    r
}

/// The first line break at or after `p`, or `end`.
pub open spec fn break_at(w: Seq<char>, p: int, end: int) -> int
    decreases end - p,
{
    if p >= end || w[p] == '\n' {
        p
    } else {
        break_at(w, p + 1, end)
    }
}

/// Where the text of the line at `p` ends: before its `\r\n` or `\n`.
pub open spec fn text_end(w: Seq<char>, p: int, end: int) -> int {
    let q = break_at(w, p, end);
    if q < end && q > p && w[q - 1] == '\r' {
        q - 1
    } else {
        q
    }
}

/// Where the line after the one at `p` starts.
pub open spec fn next_line(w: Seq<char>, p: int, end: int) -> int {
    let q = break_at(w, p, end);
    if q < end {
        q + 1
    } else {
        q
    }
}

pub proof fn lemma_break_at(w: Seq<char>, p: int, end: int)
    requires
        0 <= p <= end <= w.len(),
    ensures
        p <= break_at(w, p, end) <= end,
    decreases end - p,
{
    if p < end && w[p] != '\n' {
        lemma_break_at(w, p + 1, end);
    }
}

/// The line that starts at `pos`: where its text ends (before `\r\n` or `\n`)
/// and where the next line starts.
pub fn line_at(w: &Vec<char>, pos: usize, end: usize) -> (r: (usize, usize))
    requires
        pos <= end <= w@.len(),
    ensures
        r.0 == text_end(w@, pos as int, end as int),
        r.1 == next_line(w@, pos as int, end as int),
        pos <= r.0 <= r.1 <= end,
        pos < end ==> pos < r.1,
{
    proof {
        lemma_break_at(w@, pos as int, end as int);
    }
    let mut q = pos;
    while q < end && w[q] != '\n'
        invariant
            pos <= q <= end <= w@.len(),
            break_at(w@, pos as int, end as int) == break_at(w@, q as int, end as int),
        decreases end - q,
    {
        q = q + 1;
    }
    if q < end {
        let ce = if q > pos && w[q - 1] == '\r' {
            q - 1
        } else {
            q
        };
        (ce, q + 1)
    } else {
        (q, q)
    }
}

/// Where the text of a source ends, given where it starts.
fn trim_end(w: &Vec<char>, lo: usize) -> (r: usize)
    requires
        lo == text_start(w@),
        lo <= w@.len(),
    ensures
        r == text_stop(w@),
        lo <= r <= w@.len(),
{
    let mut e = w.len();
    while e > 0 && (w[e - 1] == ' ' || w[e - 1] == '\t' || w[e - 1] == '\n' || w[e - 1] == '\r'
        || w[e - 1] == '\x0b' || w[e - 1] == '\x0c')
        invariant
            e <= w@.len(),
            crate::text::blank_trimmed_end(w@, w@.len() as int) == crate::text::blank_trimmed_end(
                w@,
                e as int,
            ),
        decreases e,
    {
        e = e - 1;
    }
    if e >= lo {
        e
    } else {
        lo
    }
}

fn first_stage_error(message: &str, start: usize, end: usize) -> (r: ParseError)
    ensures
        r is FirstStage,
{
    ParseError::FirstStage(message.to_owned(), Span { start, end })
}

/// Whether the line `w[p..ce]` is exactly `lit`.
fn line_is(w: &Vec<char>, p: usize, ce: usize, lit: &str) -> (r: bool)
    requires
        p <= w@.len(),
    ensures
        r == word_is(w@, p as int, ce as int, lit@),
{
    is_word(w, p, ce, lit)
}

/// One blank line at `p`, which must be there unless the text ends: where
/// the next line starts.
pub open spec fn blank_at(w: Seq<char>, p: int, end: int) -> Option<int> {
    if p == end {
        Some(p)
    } else if text_end(w, p, end) == p {
        Some(next_line(w, p, end))
    } else {
        None
    }
}

/// Skips one blank line at `p`, which must be there unless the text ends.
fn blank_line(w: &Vec<char>, p: usize, end: usize, section: &str) -> (r: Result<usize, ParseError>)
    requires
        p <= end <= w@.len(),
    ensures
        match blank_at(w@, p as int, end as int) {
            Some(q) => r matches Ok(x) && x == q && p <= q <= end,
            None => r matches Err(e) && e is FirstStage,
        },
{
    if p == end {
        return Ok(p);
    }
    let (ce, ns) = line_at(w, p, end);
    if ce != p {
        return Err(first_stage_error(section, p, ce));
    }
    Ok(ns)
}

/// The first full stop or line break at or after `p`, or `end`.
pub open spec fn stop_at(w: Seq<char>, p: int, end: int) -> int
    decreases end - p,
{
    if p >= end || w[p] == '.' || w[p] == '\n' {
        p
    } else {
        stop_at(w, p + 1, end)
    }
}

pub proof fn lemma_stop_at(w: Seq<char>, p: int, end: int)
    requires
        0 <= p <= end <= w.len(),
    ensures
        p <= stop_at(w, p, end) <= end,
        forall|k: int| p <= k < stop_at(w, p, end) ==> w[k] != '.' && w[k] != '\n',
    decreases end - p,
{
    if p < end && w[p] != '.' && w[p] != '\n' {
        lemma_stop_at(w, p + 1, end);
    }
}

/// What follows the full stop at `q`: whether another sentence of the
/// paragraph follows, and where it starts or where the next paragraph starts.
pub open spec fn after_stop(w: Seq<char>, q: int, end: int) -> Option<(bool, int)> {
    if q + 1 == end {
        Some((false, end))
    } else if w[q + 1] == ' ' {
        Some((true, q + 2))
    } else if w[q + 1] == '\n' || (w[q + 1] == '\r' && q + 2 < end && w[q + 2] == '\n') {
        let nl = if w[q + 1] == '\n' {
            q + 2
        } else {
            q + 3
        };
        if nl == end {
            Some((false, end))
        } else if text_end(w, nl, end) == nl {
            Some((false, next_line(w, nl, end)))
        } else {
            Some((true, nl))
        }
    } else {
        None
    }
}

/// The method paragraph from `p` on: sentences, each ended by a full stop,
/// that all read. Where the next paragraph starts, if the paragraph reads.
pub open spec fn method_end(w: Seq<char>, p: int, end: int) -> Option<int>
    decreases end - p,
{
    let q = stop_at(w, p, end);
    if !(0 <= p <= q < end) || w[q] != '.' || read_sentence(w.subrange(p, q)) is None {
        None
    } else {
        match after_stop(w, q, end) {
            None => None,
            Some((more, r)) => if !more {
                Some(r)
            } else if r > p {
                method_end(w, r, end)
            } else {
                None
            },
        }
    }
}

/// The spans of a list of spanned values, in order.
pub open spec fn spans_of<T>(v: Seq<Spanned<T>>) -> Seq<Span> {
    Seq::new(v.len(), |i: int| v[i].1)
}

/// The spans of the sentences of the method paragraph from `p` on, where
/// `method_end` says that it reads.
pub open spec fn method_spans(w: Seq<char>, p: int, end: int) -> Seq<Span>
    decreases end - p,
{
    let q = stop_at(w, p, end);
    if !(0 <= p <= q < end) || w[q] != '.' || read_sentence(w.subrange(p, q)) is None {
        Seq::empty()
    } else {
        let sp = Span { start: p as usize, end: q as usize };
        match after_stop(w, q, end) {
            None => Seq::empty(),
            Some((more, r)) => if !more {
                seq![sp]
            } else if r > p {
                seq![sp] + method_spans(w, r, end)
            } else {
                Seq::empty()
            },
        }
    }
}

/// The text at a span holds no full stop and no line break.
pub open spec fn plain_text(w: Seq<char>, a: Span) -> bool {
    forall|k: int| a.start <= k < a.end ==> w[k] != '.' && w[k] != '\n'
}

/// Reads the sentence that starts at `s`, up to its full stop.
fn sentence_from(w: &Vec<char>, s: usize, end: usize) -> (r: Result<Spanned<CookingInstruction>, ParseError>)
    requires
        s <= end <= w@.len(),
    ensures
        ({
            let q = stop_at(w@, s as int, end as int);
            &&& r is Ok <==> (q < end && w@[q] == '.' && read_sentence(w@.subrange(s as int, q)) is Some)
            &&& r matches Ok(item) ==> item.1.end == q && item.1.start == s && s <= q < end
                && sentence_at(w@, item)
                && plain_text(w@, item.1) && ends_at_stop(w@, item.1)
            &&& r matches Err(e) ==> e is FirstStage
        }),
{
    proof {
        lemma_stop_at(w@, s as int, end as int);
    }
    let mut q = s;
    while q < end && w[q] != '.' && w[q] != '\n'
        invariant
            s <= q <= end <= w@.len(),
            stop_at(w@, s as int, end as int) == stop_at(w@, q as int, end as int),
        decreases end - q,
    {
        q = q + 1;
    }
    if q == end || w[q] != '.' {
        return Err(first_stage_error("Method: a sentence must end with a full stop", s, q));
    }
    let sentence = slice_of(w, s, q);
    match read_instruction(&sentence) {
        None => Err(first_stage_error("Method: this sentence is not an instruction", s, q)),
        Some(c) => Ok(Spanned(c, Span { start: s, end: q })),
    }
}

/// What follows the full stop at `q`.
fn next_after_stop(w: &Vec<char>, q: usize, end: usize) -> (r: Option<(bool, usize)>)
    requires
        q < end <= w@.len(),
    ensures
        match after_stop(w@, q as int, end as int) {
            Some((more, n)) => r matches Some((m, x)) && m == more && x == n && q < x <= end,
            None => r is None,
        },
{
    let q1 = q + 1;
    if q1 == end {
        return Some((false, end));
    }
    if w[q1] == ' ' {
        Some((true, q1 + 1))
    } else if w[q1] == '\n' || (w[q1] == '\r' && q1 + 1 < end && w[q1 + 1] == '\n') {
        let nl = if w[q1] == '\n' {
            q1 + 1
        } else {
            q1 + 2
        };
        if nl == end {
            return Some((false, end));
        }
        let (ce, ns) = line_at(w, nl, end);
        if ce == nl {
            Some((false, ns))
        } else {
            Some((true, nl))
        }
    } else {
        None
    }
}

/// Reads the method sentences from `start` on, to the full stop that ends
/// the paragraph; returns them and where the next paragraph starts.
#[verifier::rlimit(40)]
fn method_sentences(w: &Vec<char>, start: usize, end: usize) -> (r: Result<
    (Vec<Spanned<CookingInstruction>>, usize),
    ParseError,
>)
    requires
        start <= end <= w@.len(),
    ensures
        r is Ok <==> method_end(w@, start as int, end as int) is Some,
        r matches Ok((v, q)) ==> q == method_end(w@, start as int, end as int)->0 && start <= q <= end,
        r matches Ok((v, q)) ==> v@.len() > 0 && v@[0].1.start == start,
        r matches Ok((v, q)) ==> forall|i: int|
            0 <= i < v@.len() ==> sentence_at(w@, #[trigger] v@[i]) && plain_text(w@, v@[i].1),
        r matches Ok((v, q)) ==> sentences_joined(w@, v@),
        r matches Ok((v, q)) ==> spans_of(v@) == method_spans(w@, start as int, end as int),
        r matches Err(e) ==> e is FirstStage,
{
    let mut ins: Vec<Spanned<CookingInstruction>> = Vec::new();
    let mut pos = start;
    loop
        invariant
            start <= pos <= end <= w@.len(),
            method_spans(w@, start as int, end as int) == spans_of(ins@) + method_spans(
                w@,
                pos as int,
                end as int,
            ),
            method_end(w@, start as int, end as int) == method_end(w@, pos as int, end as int),
            ins@.len() == 0 ==> pos == start,
            ins@.len() > 0 ==> ins@[0].1.start == start,
            forall|i: int|
                0 <= i < ins@.len() ==> sentence_at(w@, #[trigger] ins@[i]) && plain_text(w@, ins@[i].1),
            sentences_joined(w@, ins@),
            ins@.len() > 0 ==> starts_after(w@, ins@.last().1, pos as int),
        decreases end - pos,
    {
        let item = sentence_from(w, pos, end)?;
        let q = item.1.end;
        let ghost before = ins@;
        ins.push(item);
        assert(forall|i: int| 0 <= i < before.len() ==> ins@[i] == before[i]);
        assert(before.len() > 0 ==> follows(w@, before.last().1, item.1));
        assert(sentences_joined(w@, ins@));
        match next_after_stop(w, q, end) {
            None => {
                return Err(
                    first_stage_error("Method: a full stop must be followed by a blank", q, q + 1),
                );
            },
            Some((more, n)) => {
                assert(spans_of(ins@) =~= spans_of(before).push(item.1));
                if !more {
                    assert(method_spans(w@, pos as int, end as int) == seq![item.1]);
                    assert(spans_of(before) + seq![item.1] =~= spans_of(ins@));
                    return Ok((ins, n));
                }
                assert(method_spans(w@, pos as int, end as int) == seq![item.1] + method_spans(
                    w@,
                    n as int,
                    end as int,
                ));
                assert(spans_of(before) + (seq![item.1] + method_spans(w@, n as int, end as int))
                    =~= spans_of(ins@) + method_spans(w@, n as int, end as int));
                pos = n;
            },
        }
    }
}

/// The ingredient lines from `p` on, up to a blank line or the end of the
/// text: where the next paragraph starts, if every line reads.
pub open spec fn ingredients_end(w: Seq<char>, p: int, end: int) -> Option<int>
    decreases end - p,
{
    if p < 0 || p >= end {
        Some(p)
    } else if text_end(w, p, end) == p {
        Some(next_line(w, p, end))
    } else if ingredient_line(w.subrange(p, text_end(w, p, end))) is None {
        None
    } else if p < next_line(w, p, end) <= end {
        ingredients_end(w, next_line(w, p, end), end)
    } else {
        None
    }
}

/// The spans of the ingredient lines from `p` on, where `ingredients_end`
/// says that they read.
pub open spec fn ingredient_spans(w: Seq<char>, p: int, end: int) -> Seq<Span>
    decreases end - p,
{
    if p < 0 || p >= end || text_end(w, p, end) == p {
        Seq::empty()
    } else if ingredient_line(w.subrange(p, text_end(w, p, end))) is None {
        Seq::empty()
    } else if p < next_line(w, p, end) <= end {
        seq![Span { start: p as usize, end: text_end(w, p, end) as usize }] + ingredient_spans(
            w,
            next_line(w, p, end),
            end,
        )
    } else {
        Seq::empty()
    }
}

/// Reads the ingredient lines from `start` on, to the blank line that ends
/// them; returns them and where the next paragraph starts.
fn ingredient_lines(w: &Vec<char>, start: usize, end: usize) -> (r: Result<
    (Vec<Spanned<CookingIngredient>>, usize),
    ParseError,
>)
    requires
        start <= end <= w@.len(),
    ensures
        r is Ok <==> ingredients_end(w@, start as int, end as int) is Some,
        r matches Ok((v, q)) ==> q == ingredients_end(w@, start as int, end as int)->0 && start <= q <= end,
        r matches Ok((v, q)) ==> forall|i: int|
            0 <= i < v@.len() ==> ingredient_at(w@, #[trigger] v@[i]),
        r matches Ok((v, q)) ==> spans_of(v@) == ingredient_spans(w@, start as int, end as int),
        r matches Err(e) ==> e is FirstStage,
{
    let mut ings: Vec<Spanned<CookingIngredient>> = Vec::new();
    let mut pos = start;
    while pos < end
        invariant
            start <= pos <= end <= w@.len(),
            ingredient_spans(w@, start as int, end as int) == spans_of(ings@) + ingredient_spans(
                w@,
                pos as int,
                end as int,
            ),
            ingredients_end(w@, start as int, end as int) == ingredients_end(w@, pos as int, end as int),
            forall|i: int| 0 <= i < ings@.len() ==> ingredient_at(w@, #[trigger] ings@[i]),
        decreases end - pos,
    {
        let (ce, ns) = line_at(w, pos, end);
        if ce == pos {
            assert(spans_of(ings@) + Seq::<Span>::empty() =~= spans_of(ings@));
            return Ok((ings, ns));
        }
        let line = slice_of(w, pos, ce);
        match read_ingredient(&line) {
            None => {
                return Err(first_stage_error("Ingredients: this line is not an ingredient", pos, ce));
            },
            Some(i) => {
                let item = Spanned(i, Span { start: pos, end: ce });
                assert(ingredient_at(w@, item));
                let ghost before = ings@;
                ings.push(item);
                assert(spans_of(ings@) =~= spans_of(before).push(item.1));
                assert(ingredient_spans(w@, pos as int, end as int) == seq![item.1] + ingredient_spans(
                    w@,
                    ns as int,
                    end as int,
                ));
                assert(spans_of(before) + (seq![item.1] + ingredient_spans(w@, ns as int, end as int))
                    =~= spans_of(ings@) + ingredient_spans(w@, ns as int, end as int));
            },
        }
        pos = ns;
    }
    assert(spans_of(ings@) + Seq::<Span>::empty() =~= spans_of(ings@));
    Ok((ings, pos))
}

/// The number that follows `lead` on the line `w[p..ce]`, if the line starts so.
/// The number that follows `lead` on the line `w[p..ce]`, if the line
/// starts with `lead` and a number follows within the line.
pub open spec fn number_after_line(w: Seq<char>, p: int, ce: int, lead: Seq<char>) -> Option<usize> {
    match after(w, p, lead) {
        Some(q) => if q <= ce {
            match int_at(w, q) {
                Some((v, e)) => if e <= ce {
                    Some(v)
                } else {
                    None
                },
                None => None,
            }
        } else {
            None
        },
        None => None,
    }
}

/// The number given by the last line starting with `lead` in the paragraph
/// from `p` on, `acc` if none does.
pub open spec fn times_value(w: Seq<char>, p: int, end: int, lead: Seq<char>, acc: Option<usize>) -> Option<usize>
    decreases end - p,
{
    if p < 0 || p >= end || text_end(w, p, end) == p {
        acc
    } else if p < next_line(w, p, end) <= end {
        let acc2 = if has_at(w, p, lead) {
            number_after_line(w, p, text_end(w, p, end), lead)
        } else {
            acc
        };
        times_value(w, next_line(w, p, end), end, lead, acc2)
    } else {
        acc
    }
}

fn number_after(w: &Vec<char>, p: usize, ce: usize, lead: &str) -> (r: Option<usize>)
    requires
        p <= ce <= w@.len(),
    ensures
        r == number_after_line(w@, p as int, ce as int, lead@),
{
    match expect(w, p, lead) {
        Some(q) => if q <= ce {
            match read_int(w, q) {
                Some((v, e)) => if e <= ce {
                    Some(v)
                } else {
                    None
                },
                None => None,
            }
        } else {
            None
        },
        None => None,
    }
}

/// The line at `p` is exactly `lit`.
pub open spec fn is_line(w: Seq<char>, p: int, end: int, lit: Seq<char>) -> bool {
    word_is(w, p, text_end(w, p, end), lit)
}

/// The paragraph from `p` on, up to a blank line or the end of the text:
/// where the next paragraph starts.
pub open spec fn paragraph_end(w: Seq<char>, p: int, end: int) -> int
    decreases end - p,
{
    if p < 0 || p >= end {
        p
    } else if text_end(w, p, end) == p {
        next_line(w, p, end)
    } else if p < next_line(w, p, end) <= end {
        paragraph_end(w, next_line(w, p, end), end)
    } else {
        p
    }
}

/// A line that gives the cooking time or the oven temperature.
pub open spec fn is_time_line(w: Seq<char>, p: int) -> bool {
    has_at(w, p, "Cooking time: "@) || has_at(w, p, "Pre-heat oven to "@)
}

/// The cooking time and oven temperature lines from `p` on: where the next
/// paragraph starts, if every line is one of them.
pub open spec fn times_end(w: Seq<char>, p: int, end: int) -> Option<int>
    decreases end - p,
{
    if p < 0 || p >= end {
        Some(p)
    } else if text_end(w, p, end) == p {
        Some(next_line(w, p, end))
    } else if !is_time_line(w, p) {
        None
    } else if p < next_line(w, p, end) <= end {
        times_end(w, next_line(w, p, end), end)
    } else {
        None
    }
}

/// The title of the recipe at `p`: its first line, without a closing full
/// stop and without the blanks around it.
pub open spec fn title_text(w: Seq<char>, p: int, end: int) -> Seq<char> {
    let ce = text_end(w, p, end);
    let raw = if ce > p && w[ce - 1] == '.' {
        w.subrange(p, ce - 1)
    } else {
        w.subrange(p, ce)
    };
    trimmed(raw)
}

/// A text without the blanks around it.
pub open spec fn trimmed(t: Seq<char>) -> Seq<char> {
    let a = space_end(t, 0);
    let b = crate::text::blank_trimmed_end(t, t.len() as int);
    if a < b {
        t.subrange(a, b)
    } else {
        Seq::empty()
    }
}

/// The text `t` without the blanks around it.
fn trim(t: &Vec<char>) -> (r: String)
    ensures
        r@ == trimmed(t@),
{
    let a = skip_space(t, 0);
    let mut b = t.len();
    while b > 0 && (t[b - 1] == ' ' || t[b - 1] == '\t' || t[b - 1] == '\n' || t[b - 1] == '\r'
        || t[b - 1] == '\x0b' || t[b - 1] == '\x0c')
        invariant
            b <= t@.len(),
            crate::text::blank_trimmed_end(t@, t@.len() as int) == crate::text::blank_trimmed_end(
                t@,
                b as int,
            ),
        decreases b,
    {
        b = b - 1;
    }
    if a < b {
        string_of(t, a, b)
    } else {
        String::new()
    }
}

/// A `Serves <number>.` line at `p` and the blank line after it.
pub open spec fn serves_end(w: Seq<char>, p: int, end: int) -> Option<int> {
    let ce = text_end(w, p, end);
    if ce > p && w[ce - 1] == '.' && serves_at(w.subrange(p, ce - 1), 0) is Some {
        blank_at(w, next_line(w, p, end), end)
    } else {
        None
    }
}

/// After the title's blank line, at `b`: an optional comments paragraph,
/// which is any paragraph that does not open the ingredients or the method.
pub open spec fn comments_end(w: Seq<char>, b: int, end: int) -> int {
    if b < end && !is_line(w, b, end, "Ingredients."@) && !is_line(w, b, end, "Method."@) {
        paragraph_end(w, b, end)
    } else {
        b
    }
}

/// An optional `Ingredients.` paragraph at `c`.
pub open spec fn ingredients_part(w: Seq<char>, c: int, end: int) -> Option<int> {
    if is_line(w, c, end, "Ingredients."@) {
        ingredients_end(w, next_line(w, c, end), end)
    } else {
        Some(c)
    }
}

/// An optional cooking time and oven temperature paragraph at `d`.
pub open spec fn times_part(w: Seq<char>, d: int, end: int) -> Option<int> {
    if is_time_line(w, d) {
        times_end(w, d, end)
    } else {
        Some(d)
    }
}

/// An optional `Serves` line at `f`.
pub open spec fn serves_part(w: Seq<char>, f: int, end: int) -> Option<int> {
    if has_at(w, f, "Serves "@) {
        serves_end(w, f, end)
    } else {
        Some(f)
    }
}

/// The `Method.` paragraph at `e`, and an optional `Serves` line after it.
pub open spec fn method_part(w: Seq<char>, e: int, end: int) -> Option<int> {
    if e == end || !is_line(w, e, end, "Method."@) {
        None
    } else {
        match method_end(w, next_line(w, e, end), end) {
            None => None,
            Some(f) => serves_part(w, f, end),
        }
    }
}

/// The layout of a recipe that starts at `p`: title line, blank line,
/// optional comments paragraph, optional `Ingredients.` paragraph, optional
/// cooking time and oven temperature paragraph, `Method.` paragraph,
/// optional `Serves` line. Where the next recipe starts, if all of it reads.
pub open spec fn recipe_end(w: Seq<char>, p: int, end: int) -> Option<int> {
    match blank_at(w, next_line(w, p, end), end) {
        None => None,
        Some(b) => match ingredients_part(w, comments_end(w, b, end), end) {
            None => None,
            Some(d) => match times_part(w, d, end) {
                None => None,
                Some(e) => method_part(w, e, end),
            },
        },
    }
}

/// Where each recipe of the text from `p` to `end` starts, if all read.
pub open spec fn recipe_starts(w: Seq<char>, p: int, end: int) -> Option<Seq<int>>
    decreases end - p,
{
    if p < 0 || p >= end {
        Some(Seq::empty())
    } else {
        match recipe_end(w, p, end) {
            None => None,
            Some(q) => if p < q <= end {
                match recipe_starts(w, q, end) {
                    Some(rest) => Some(seq![p] + rest),
                    None => None,
                }
            } else {
                None
            },
        }
    }
}

/// Where the text of a source starts: after leading blanks.
pub open spec fn text_start(w: Seq<char>) -> int {
    space_end(w, 0)
}

/// Where the text of a source ends: before trailing blanks.
pub open spec fn text_stop(w: Seq<char>) -> int {
    let e = crate::text::blank_trimmed_end(w, w.len() as int);
    if e >= text_start(w) {
        e
    } else {
        text_start(w)
    }
}

/// Reads the cooking time and oven temperature lines from `start` on;
/// returns the two numbers, where given, and where the next paragraph starts.
fn time_lines(w: &Vec<char>, start: usize, end: usize) -> (r: Result<
    (Option<usize>, Option<usize>, usize),
    ParseError,
>)
    requires
        start <= end <= w@.len(),
    ensures
        r is Ok <==> times_end(w@, start as int, end as int) is Some,
        r matches Ok((_, _, q)) ==> q == times_end(w@, start as int, end as int)->0 && start <= q <= end,
        r matches Ok((c, o, _)) ==> c == times_value(w@, start as int, end as int, "Cooking time: "@, None)
            && o == times_value(w@, start as int, end as int, "Pre-heat oven to "@, None),
        r matches Err(e) ==> e is FirstStage,
{
    let mut cooking_time: Option<usize> = None;
    let mut oven_temperature: Option<usize> = None;
    let mut p = start;
    loop
        invariant_except_break
            times_end(w@, start as int, end as int) == times_end(w@, p as int, end as int),
            times_value(w@, start as int, end as int, "Cooking time: "@, None) == times_value(
                w@,
                p as int,
                end as int,
                "Cooking time: "@,
                cooking_time,
            ),
            times_value(w@, start as int, end as int, "Pre-heat oven to "@, None) == times_value(
                w@,
                p as int,
                end as int,
                "Pre-heat oven to "@,
                oven_temperature,
            ),
        invariant
            start <= p <= end <= w@.len(),
        ensures
            times_end(w@, start as int, end as int) == Some(p as int),
            cooking_time == times_value(w@, start as int, end as int, "Cooking time: "@, None),
            oven_temperature == times_value(w@, start as int, end as int, "Pre-heat oven to "@, None),
        decreases end - p,
    {
        if p == end {
            break;
        }
        let (ce, ns) = line_at(w, p, end);
        if ce == p {
            p = ns;
            break;
        }
        if lit_at(w, p, "Cooking time: ") {
            proof {
                reveal_strlit("Cooking time: ");
                reveal_strlit("Pre-heat oven to ");
                assert(w@.subrange(p as int, p + "Cooking time: "@.len())[0] == w@[p as int]);
                if has_at(w@, p as int, "Pre-heat oven to "@) {
                    assert(w@.subrange(p as int, p + "Pre-heat oven to "@.len())[0] == w@[p as int]);
                }
            }
            cooking_time = number_after(w, p, ce, "Cooking time: ");
        } else if lit_at(w, p, "Pre-heat oven to ") {
            oven_temperature = number_after(w, p, ce, "Pre-heat oven to ");
        } else {
            return Err(
                first_stage_error(
                    "Cooking time: expected a cooking time or an oven temperature",
                    p,
                    ce,
                ),
            );
        }
        p = ns;
    }
    Ok((cooking_time, oven_temperature, p))
}

/// The end of the text of the last line of the paragraph from `p` on, or
/// `c` where that paragraph has no line.
pub open spec fn paragraph_text_end(w: Seq<char>, p: int, end: int, c: int) -> int
    decreases end - p,
{
    if p < 0 || p >= end || text_end(w, p, end) == p {
        c
    } else if p < next_line(w, p, end) <= end {
        paragraph_text_end(w, next_line(w, p, end), end, text_end(w, p, end))
    } else {
        c
    }
}

/// The comments paragraph at `b`, if there is one: its text, line breaks
/// between its lines kept.
pub open spec fn comments_text(w: Seq<char>, b: int, end: int) -> Seq<char> {
    if b < end && !is_line(w, b, end, "Ingredients."@) && !is_line(w, b, end, "Method."@) {
        w.subrange(b, paragraph_text_end(w, b, end, b))
    } else {
        Seq::empty()
    }
}

/// The number a time line of the paragraph at `d` gives after `lead`, if
/// the paragraph is one of cooking time and oven temperature lines.
pub open spec fn time_given(w: Seq<char>, d: int, end: int, lead: Seq<char>) -> Option<usize> {
    if is_time_line(w, d) {
        times_value(w, d, end, lead, None)
    } else {
        None
    }
}

/// Reads the title line and the blank line after it, and the comments
/// paragraph if there is one; returns the title, the comments and where the
/// next paragraph starts.
#[verifier::rlimit(40)]
fn title_and_comments(w: &Vec<char>, pos: usize, end: usize) -> (r: Result<
    (String, String, usize),
    ParseError,
>)
    requires
        pos < end <= w@.len(),
    ensures
        r is Ok <==> blank_at(w@, next_line(w@, pos as int, end as int), end as int) is Some,
        r matches Ok((t, cm, c)) ==> {
            &&& t@ == title_text(w@, pos as int, end as int)
            &&& cm@ == comments_text(
                w@,
                blank_at(w@, next_line(w@, pos as int, end as int), end as int)->0,
                end as int,
            )
            &&& c == comments_end(
                w@,
                blank_at(w@, next_line(w@, pos as int, end as int), end as int)->0,
                end as int,
            )
            &&& pos < c <= end
        },
        r matches Err(e) ==> e is FirstStage,
{
    let (ce, ns) = line_at(w, pos, end);
    let title_end = if ce > pos && w[ce - 1] == '.' {
        ce - 1
    } else {
        ce
    };
    let raw = slice_of(w, pos, title_end);
    let title = trim(&raw);
    let mut p = blank_line(w, ns, end, "Title: expected a blank line after the title")?;
    let mut comments = String::new();
    let (ce, _) = line_at(w, p, end);
    if p < end && !line_is(w, p, ce, "Ingredients.") && !line_is(w, p, ce, "Method.") {
        let c0 = p;
        let mut c1 = p;
        loop
            invariant_except_break
                paragraph_end(w@, c0 as int, end as int) == paragraph_end(w@, p as int, end as int),
                paragraph_text_end(w@, c0 as int, end as int, c0 as int) == paragraph_text_end(
                    w@,
                    p as int,
                    end as int,
                    c1 as int,
                ),
            invariant
                pos < c0 <= c1 <= p <= end <= w@.len(),
            ensures
                p == paragraph_end(w@, c0 as int, end as int),
                c1 == paragraph_text_end(w@, c0 as int, end as int, c0 as int),
            decreases end - p,
        {
            if p == end {
                break;
            }
            let (ce, ns) = line_at(w, p, end);
            if ce == p {
                p = ns;
                break;
            }
            c1 = ce;
            p = ns;
        }
        comments = string_of(w, c0, c1);
    }
    Ok((title, comments, p))
}

/// The spans of the ingredient lines of an optional `Ingredients.`
/// paragraph at `c`.
pub open spec fn section_ingredient_spans(w: Seq<char>, c: int, end: int) -> Seq<Span> {
    if is_line(w, c, end, "Ingredients."@) {
        ingredient_spans(w, next_line(w, c, end), end)
    } else {
        Seq::empty()
    }
}

/// The span of an optional `Serves <number>.` line at `f`, full stop left out.
pub open spec fn serves_line_span(w: Seq<char>, f: int, end: int) -> Option<Span> {
    if has_at(w, f, "Serves "@) {
        Some(Span { start: f as usize, end: (text_end(w, f, end) - 1) as usize })
    } else {
        None
    }
}

pub open spec fn serves_span_of(sv: Option<Spanned<usize>>) -> Option<Span> {
    match sv {
        Some(n) => Some(n.1),
        None => None,
    }
}

/// Where the `Method.` line of the recipe at `p` stands.
pub open spec fn method_line(w: Seq<char>, p: int, end: int) -> int {
    let b = blank_at(w, next_line(w, p, end), end)->0;
    let d = ingredients_part(w, comments_end(w, b, end), end)->0;
    times_part(w, d, end)->0
}

/// The recipe read at `p` holds exactly its comments, its cooking time and
/// oven temperature, the ingredient lines of its ingredients section, the
/// sentences of its method in order, and its `Serves` line, each at its span.
pub open spec fn recipe_laid_out(
    w: Seq<char>,
    p: int,
    end: int,
    rec: ChefRecipe<CookingInstruction, CookingIngredient>,
) -> bool {
    let b = blank_at(w, next_line(w, p, end), end)->0;
    let e = method_line(w, p, end);
    let d = ingredients_part(w, comments_end(w, b, end), end)->0;
    &&& rec.comments@ == comments_text(w, b, end)
    &&& rec.cooking_time == time_given(w, d, end, "Cooking time: "@)
    &&& rec.oven_temperature == time_given(w, d, end, "Pre-heat oven to "@)
    &&& spans_of(rec.ingredients@) == section_ingredient_spans(w, comments_end(w, b, end), end)
    &&& spans_of(rec.instructions@) == method_spans(w, next_line(w, e, end), end)
    &&& serves_span_of(rec.serves) == serves_line_span(
        w,
        method_end(w, next_line(w, e, end), end)->0,
        end,
    )
}

/// Reads the ingredients paragraph at `c`, if there is one.
fn ingredients_at(w: &Vec<char>, c: usize, end: usize) -> (r: Result<
    (Vec<Spanned<CookingIngredient>>, usize),
    ParseError,
>)
    requires
        c <= end <= w@.len(),
    ensures
        r is Ok <==> ingredients_part(w@, c as int, end as int) is Some,
        r matches Ok((v, d)) ==> d == ingredients_part(w@, c as int, end as int)->0 && c <= d <= end,
        r matches Ok((v, d)) ==> forall|i: int|
            0 <= i < v@.len() ==> ingredient_at(w@, #[trigger] v@[i]),
        r matches Ok((v, d)) ==> spans_of(v@) == section_ingredient_spans(w@, c as int, end as int),
        r matches Err(e) ==> e is FirstStage,
{
    let (ce, ns) = line_at(w, c, end);
    if line_is(w, c, ce, "Ingredients.") {
        ingredient_lines(w, ns, end)
    } else {
        let v: Vec<Spanned<CookingIngredient>> = Vec::new();
        assert(spans_of(v@) =~= Seq::<Span>::empty());
        Ok((v, c))
    }
}

/// Reads the `Method.` paragraph at `e` and the `Serves` line after it, if
/// there is one; returns the sentences, the number of dishes to serve and
/// where the next recipe starts.
fn method_at(w: &Vec<char>, e: usize, end: usize) -> (r: Result<
    (Vec<Spanned<CookingInstruction>>, Option<Spanned<usize>>, usize),
    ParseError,
>)
    requires
        e <= end <= w@.len(),
    ensures
        r is Ok <==> method_part(w@, e as int, end as int) is Some,
        r matches Ok((v, sv, q)) ==> q == method_part(w@, e as int, end as int)->0 && e < q <= end,
        r matches Ok((v, sv, q)) ==> forall|i: int|
            0 <= i < v@.len() ==> sentence_at(w@, #[trigger] v@[i]),
        r matches Ok((v, sv, q)) ==> sentences_joined(w@, v@),
        r matches Ok((v, sv, q)) ==> (sv matches Some(n) ==> n.1.start <= n.1.end <= w@.len()
            && serves_at(w@.subrange(n.1.start as int, n.1.end as int), 0) == Some(n.0)),
        r matches Ok((v, sv, q)) ==> spans_of(v@) == method_spans(
            w@,
            next_line(w@, e as int, end as int),
            end as int,
        ),
        r matches Ok((v, sv, q)) ==> serves_span_of(sv) == serves_line_span(
            w@,
            method_end(w@, next_line(w@, e as int, end as int), end as int)->0,
            end as int,
        ),
        r matches Err(err) ==> err is FirstStage,
{
    let (ce, ns) = line_at(w, e, end);
    if e == end || !line_is(w, e, ce, "Method.") {
        return Err(first_stage_error("Method: expected `Method.`", e, ce));
    }
    let (instructions, q) = method_sentences(w, ns, end)?;
    let mut p = q;
    let mut serves: Option<Spanned<usize>> = None;
    if lit_at(w, p, "Serves ") {
        let (ce, ns) = line_at(w, p, end);
        if ce == p || w[ce - 1] != '.' {
            return Err(first_stage_error("Serves: expected `Serves <number>.`", p, ce));
        }
        let line = slice_of(w, p, ce - 1);
        match read_serves(&line, 0) {
            Some(n) => {
                serves = Some(Spanned(n, Span { start: p, end: ce - 1 }));
            },
            None => {
                return Err(first_stage_error("Serves: expected `Serves <number>.`", p, ce));
            },
        }
        p = blank_line(w, ns, end, "Serves: expected a blank line after `Serves`")?;
    }
    Ok((instructions, serves, p))
}

/// Reads one recipe that starts at `pos`; returns it and where the next
/// recipe starts.
#[verifier::rlimit(40)]
fn recipe_at(w: &Vec<char>, pos: usize, end: usize) -> (r: Result<
    (ChefRecipe<CookingInstruction, CookingIngredient>, usize),
    ParseError,
>)
    requires
        pos < end <= w@.len(),
    ensures
        r is Ok <==> recipe_end(w@, pos as int, end as int) is Some,
        r matches Ok((rec, q)) ==> q == recipe_end(w@, pos as int, end as int)->0 && pos < q <= end,
        r matches Ok((rec, q)) ==> recipe_reads(w@, rec) && rec.title@ == title_text(
            w@,
            pos as int,
            end as int,
        ),
        r matches Ok((rec, q)) ==> recipe_laid_out(w@, pos as int, end as int, rec),
        r matches Err(e) ==> e is FirstStage,
{
    let (title, comments, c) = title_and_comments(w, pos, end)?;
    let (ingredients, d) = ingredients_at(w, c, end)?;
    let mut cooking_time: Option<usize> = None;
    let mut oven_temperature: Option<usize> = None;
    let mut e = d;
    if lit_at(w, d, "Cooking time: ") || lit_at(w, d, "Pre-heat oven to ") {
        let (ct, ot, q) = time_lines(w, d, end)?;
        cooking_time = ct;
        oven_temperature = ot;
        e = q;
    }
    let (instructions, serves, q) = method_at(w, e, end)?;
    let rec = ChefRecipe {
        title,
        comments,
        ingredients,
        cooking_time,
        oven_temperature,
        instructions,
        serves,
    };
    Ok((rec, q))
}

/// Reads every recipe of a Chef source text, in order.
///
/// Leading and trailing blanks aside, the text is a run of recipes laid out
/// as `recipe_end` says. It reads exactly when every recipe does; then there
/// is one recipe for each start that `recipe_starts` gives, with the title
/// found there, and every sentence, ingredient line and `Serves` line is the
/// reading of the source characters at its span.
#[verifier::rlimit(40)]
pub fn parser(input: &str) -> (r: Result<Vec<ChefRecipe<CookingInstruction, CookingIngredient>>, ParseError>)
    ensures
        r is Ok <==> recipe_starts(input@, text_start(input@), text_stop(input@)) is Some,
        r matches Ok(recipes) ==> {
            let starts = recipe_starts(input@, text_start(input@), text_stop(input@))->0;
            &&& recipes@.len() == starts.len()
            &&& forall|i: int|
                0 <= i < recipes@.len() ==> recipe_reads(input@, #[trigger] recipes@[i])
                    && recipes@[i].title@ == title_text(input@, starts[i], text_stop(input@))
                    && recipe_laid_out(input@, starts[i], text_stop(input@), recipes@[i])
        },
        r matches Err(e) ==> e is FirstStage,
{
    let w = chars_of(input);
    let start = skip_space(&w, 0);
    let end = trim_end(&w, start);
    let mut recipes: Vec<ChefRecipe<CookingInstruction, CookingIngredient>> = Vec::new();
    let ghost mut starts: Seq<int> = Seq::empty();
    let mut p = start;
    while p < end
        invariant
            start <= p <= end <= w@.len(),
            start == text_start(input@),
            end == text_stop(input@),
            w@ == input@,
            recipes@.len() == starts.len(),
            recipe_starts(w@, start as int, end as int) == match recipe_starts(w@, p as int, end as int) {
                Some(rest) => Some(starts + rest),
                None => None,
            },
            forall|i: int|
                0 <= i < recipes@.len() ==> recipe_reads(input@, #[trigger] recipes@[i])
                    && recipes@[i].title@ == title_text(input@, starts[i], end as int)
                    && recipe_laid_out(input@, starts[i], end as int, recipes@[i]),
        decreases end - p,
    {
        let (rec, q) = recipe_at(&w, p, end)?;
        proof {
            match recipe_starts(w@, q as int, end as int) {
                Some(rest) => {
                    assert(starts + (seq![p as int] + rest) == starts.push(p as int) + rest);
                },
                None => {},
            }
            starts = starts.push(p as int);
        }
        recipes.push(rec);
        p = q;
    }
    assert(starts + Seq::<int>::empty() == starts);
    Ok(recipes)
}

/// Reads one method sentence given on its own, without its full stop.
pub fn instruction(input: &str) -> (r: Result<Spanned<CookingInstruction>, ParseError>)
    ensures
        match read_sentence(input@) {
            Some(s) => r matches Ok(c) && c.0@ == s && c.1 == Span {
                start: 0,
                end: input@.len() as usize,
            },
            None => r matches Err(e) && e is FirstStage,
        },
{
    let w = chars_of(input);
    match read_instruction(&w) {
        Some(c) => Ok(Spanned(c, Span { start: 0, end: w.len() })),
        None => Err(first_stage_error("Method: this sentence is not an instruction", 0, w.len())),
    }
}

/// Where the text of a line ends, before the line break that must end it.
pub open spec fn line_text_end(w: Seq<char>) -> Option<int> {
    let n = w.len() as int;
    if n >= 2 && w[n - 2] == '\r' && w[n - 1] == '\n' {
        Some(n - 2)
    } else if n >= 1 && w[n - 1] == '\n' {
        Some(n - 1)
    } else {
        None
    }
}

/// Reads one ingredient line, which must end with its line break.
pub fn ingredient(input: &str) -> (r: Result<Spanned<CookingIngredient>, ParseError>)
    ensures
        match line_text_end(input@) {
            None => r is Err,
            Some(e) => match ingredient_line(input@.subrange(0, e)) {
                Some(x) => r matches Ok(i) && ingredient_view(i.0) == x && i.1 == Span {
                    start: 0,
                    end: e as usize,
                },
                None => r is Err,
            },
        },
{
    let w = chars_of(input);
    let n = w.len();
    let ce = if n >= 2 && w[n - 2] == '\r' && w[n - 1] == '\n' {
        n - 2
    } else if n >= 1 && w[n - 1] == '\n' {
        n - 1
    } else {
        return Err(first_stage_error("Ingredients: expected a line break", n, n));
    };
    let line = slice_of(&w, 0, ce);
    match read_ingredient(&line) {
        Some(i) => Ok(Spanned(i, Span { start: 0, end: ce })),
        None => Err(first_stage_error("Ingredients: this line is not an ingredient", 0, ce)),
    }
}

} // verus!
