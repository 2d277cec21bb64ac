//! Checks made before a program runs: every `Serve with` names an auxiliary
//! recipe, and every ingredient an instruction names is declared.
use vstd::prelude::*;

use crate::parser::ast::{ChefRecipe, Ingredient, Span, Spanned};
use crate::parser::stage_two::has_key;
use crate::parser::stage_two_ast::{ChefProgram, Instruction};
use crate::text::{append, lower_of, lowercase};
use crate::SpatulaError;

verus! {

/// Every `Serve with` in the tree names a recipe kept in `aux`.
pub open spec fn refs_ok(t: Seq<Spanned<Instruction>>, aux: Seq<(String, ChefRecipe<Instruction, Ingredient>)>) -> bool
    decreases t,
{
    if t.len() == 0 {
        true
    } else {
        refs_ok(t.drop_last(), aux) && one_ref_ok(t.last(), aux)
    }
}

pub open spec fn one_ref_ok(x: Spanned<Instruction>, aux: Seq<(String, ChefRecipe<Instruction, Ingredient>)>) -> bool
    decreases x,
{
    match x.0 {
        Instruction::ServeWith(r) => has_key(aux, lower_of(r@)),
        Instruction::VerbLoop(l) => refs_ok(l.instructions@, aux),
        _ => true,
    }
}

/// The ingredient an instruction names, if it names one.
pub open spec fn named_ingredient(i: Instruction) -> Option<Seq<char>> {
    match i {
        Instruction::Take(n) => Some(n@),
        Instruction::Put(n, _) => Some(n@),
        Instruction::Fold(n, _) => Some(n@),
        Instruction::Add(n, _) => Some(n@),
        Instruction::Remove(n, _) => Some(n@),
        Instruction::Combine(n, _) => Some(n@),
        Instruction::Divide(n, _) => Some(n@),
        Instruction::Liquefy(n) => Some(n@),
        Instruction::StirIngredient(n, _) => Some(n@),
        _ => None,
    }
}

/// The lower-cased names that a recipe declares.
pub open spec fn declared(names: Seq<String>, key: Seq<char>) -> bool {
    exists|i: int| 0 <= i < names.len() && #[trigger] names[i]@ == key
}

/// Every ingredient that an instruction of the tree names is declared,
/// names compared in lower case.
pub open spec fn uses_ok(t: Seq<Spanned<Instruction>>, names: Seq<String>) -> bool
    decreases t,
{
    if t.len() == 0 {
        true
    } else {
        uses_ok(t.drop_last(), names) && one_use_ok(t.last(), names)
    }
}

pub open spec fn one_use_ok(x: Spanned<Instruction>, names: Seq<String>) -> bool
    decreases x,
{
    match x.0 {
        Instruction::VerbLoop(l) => uses_ok(l.instructions@, names),
        other => match named_ingredient(other) {
            Some(n) => declared(names, lower_of(n)),
            None => true,
        },
    }
}

/// The names a list of declarations gives, lower-cased.
pub open spec fn declared_names(names: Seq<String>, ings: Seq<Spanned<Ingredient>>) -> bool {
    &&& names.len() == ings.len()
    &&& forall|i: int| 0 <= i < names.len() ==> #[trigger] names[i]@ == lower_of(ings[i].0.name@)
}

/// The first `Serve with` of the tree, in reading order (a loop's body
/// before what follows the loop), that names no recipe kept in `aux`: the
/// name it gives and its span.
pub open spec fn first_bad_serve(
    t: Seq<Spanned<Instruction>>,
    aux: Seq<(String, ChefRecipe<Instruction, Ingredient>)>,
) -> Option<(Seq<char>, Span)>
    decreases t,
{
    if t.len() == 0 {
        None
    } else {
        match first_bad_serve(t.drop_last(), aux) {
            Some(x) => Some(x),
            None => first_bad_serve_one(t.last(), aux),
        }
    }
}

pub open spec fn first_bad_serve_one(
    x: Spanned<Instruction>,
    aux: Seq<(String, ChefRecipe<Instruction, Ingredient>)>,
) -> Option<(Seq<char>, Span)>
    decreases x,
{
    match x.0 {
        Instruction::ServeWith(r) => if has_key(aux, lower_of(r@)) {
            None
        } else {
            Some((r@, x.1))
        },
        Instruction::VerbLoop(l) => first_bad_serve(l.instructions@, aux),
        _ => None,
    }
}

/// A recipe declares an ingredient whose lower-cased name is `key`.
pub open spec fn declares(ings: Seq<Spanned<Ingredient>>, key: Seq<char>) -> bool {
    exists|i: int| 0 <= i < ings.len() && #[trigger] lower_of(ings[i].0.name@) == key
}

/// The first instruction of the tree, in reading order, that names an
/// ingredient the declarations `ings` do not declare: that name and its span.
pub open spec fn first_bad_use(t: Seq<Spanned<Instruction>>, ings: Seq<Spanned<Ingredient>>) -> Option<
    (Seq<char>, Span),
>
    decreases t,
{
    if t.len() == 0 {
        None
    } else {
        match first_bad_use(t.drop_last(), ings) {
            Some(x) => Some(x),
            None => first_bad_use_one(t.last(), ings),
        }
    }
}

pub open spec fn first_bad_use_one(x: Spanned<Instruction>, ings: Seq<Spanned<Ingredient>>) -> Option<
    (Seq<char>, Span),
>
    decreases x,
{
    match x.0 {
        Instruction::VerbLoop(l) => first_bad_use(l.instructions@, ings),
        other => match named_ingredient(other) {
            Some(n) => if declares(ings, lower_of(n)) {
                None
            } else {
                Some((n, x.1))
            },
            None => None,
        },
    }
}

proof fn lemma_first_bad_serve_prefix(
    t: Seq<Spanned<Instruction>>,
    aux: Seq<(String, ChefRecipe<Instruction, Ingredient>)>,
    k: int,
)
    requires
        0 <= k <= t.len(),
        first_bad_serve(t.subrange(0, k), aux) is Some,
    ensures
        first_bad_serve(t, aux) == first_bad_serve(t.subrange(0, k), aux),
    decreases t.len() - k,
{
    if k < t.len() {
        assert(t.subrange(0, k + 1).drop_last() == t.subrange(0, k));
        lemma_first_bad_serve_prefix(t, aux, k + 1);
    } else {
        assert(t.subrange(0, k) == t);
    }
}

proof fn lemma_first_bad_use_prefix(t: Seq<Spanned<Instruction>>, ings: Seq<Spanned<Ingredient>>, k: int)
    requires
        0 <= k <= t.len(),
        first_bad_use(t.subrange(0, k), ings) is Some,
    ensures
        first_bad_use(t, ings) == first_bad_use(t.subrange(0, k), ings),
    decreases t.len() - k,
{
    if k < t.len() {
        assert(t.subrange(0, k + 1).drop_last() == t.subrange(0, k));
        lemma_first_bad_use_prefix(t, ings, k + 1);
    } else {
        assert(t.subrange(0, k) == t);
    }
}

/// Whether some auxiliary recipe is kept under `key`.
fn find_key(aux: &Vec<(String, ChefRecipe<Instruction, Ingredient>)>, key: &String) -> (r: bool)
    ensures
        r == has_key(aux@, key@),
{
    let mut i: usize = 0;
    while i < aux.len()
        invariant
            i <= aux@.len(),
            forall|j: int| 0 <= j < i ==> aux@[j].0@ != key@,
        decreases aux.len() - i,
    {
        if aux[i].0 == *key {
            return true;
        }
        i = i + 1;
    }
    false
}

/// The first `Serve with` of the tree whose recipe is missing, with its name.
fn check_refs(t: &Vec<Spanned<Instruction>>, aux: &Vec<(String, ChefRecipe<Instruction, Ingredient>)>) -> (r: Option<(String, Span)>)
    ensures
        r is None <==> refs_ok(t@, aux@),
        match r {
            Some((name, sp)) => first_bad_serve(t@, aux@) == Some((name@, sp)),
            None => first_bad_serve(t@, aux@) is None,
        },
    decreases t,
{
    let mut i: usize = 0;
    while i < t.len()
        invariant
            i <= t@.len(),
            refs_ok(t@.subrange(0, i as int), aux@),
            first_bad_serve(t@.subrange(0, i as int), aux@) is None,
        decreases t.len() - i,
    {
        assert(t@.subrange(0, i + 1).drop_last() == t@.subrange(0, i as int));
        assert(t@.subrange(0, i + 1).last() == t@[i as int]);
        match &t[i].0 {
            Instruction::ServeWith(name) => {
                let key = lowercase(name.as_str());
                if !find_key(aux, &key) {
                    proof {
                        assert(!one_ref_ok(t@[i as int], aux@));
                        assert(!refs_ok(t@.subrange(0, i + 1), aux@));
                        lemma_refs_prefix(t@, aux@, i + 1);
                        assert(first_bad_serve_one(t@[i as int], aux@) == Some((name@, t@[i as int].1)));
                        assert(first_bad_serve(t@.subrange(0, i + 1), aux@) == Some((name@, t@[i as int].1)));
                        lemma_first_bad_serve_prefix(t@, aux@, i + 1);
                    }
                    return Some((name.clone(), t[i].1));
                }
            },
            Instruction::VerbLoop(l) => {
                match check_refs(&l.instructions, aux) {
                    Some(found) => {
                        proof {
                            assert(!one_ref_ok(t@[i as int], aux@));
                            assert(!refs_ok(t@.subrange(0, i + 1), aux@));
                            lemma_refs_prefix(t@, aux@, i + 1);
                            assert(first_bad_serve_one(t@[i as int], aux@) == Some((found.0@, found.1)));
                            assert(first_bad_serve(t@.subrange(0, i + 1), aux@) == Some((found.0@, found.1)));
                            lemma_first_bad_serve_prefix(t@, aux@, i + 1);
                        }
                        return Some(found);
                    },
                    None => {},
                }
            },
            _ => {},
        }
        assert(one_ref_ok(t@[i as int], aux@));
        i = i + 1;
    }
    assert(t@.subrange(0, t@.len() as int) == t@);
    None
}

/// A tree whose references are all fine has fine references in every prefix.
proof fn lemma_refs_prefix(t: Seq<Spanned<Instruction>>, aux: Seq<(String, ChefRecipe<Instruction, Ingredient>)>, k: int)
    requires
        0 <= k <= t.len(),
        !refs_ok(t.subrange(0, k), aux),
    ensures
        !refs_ok(t, aux),
    decreases t.len() - k,
{
    if k < t.len() {
        assert(t.subrange(0, k + 1).drop_last() == t.subrange(0, k));
        lemma_refs_prefix(t, aux, k + 1);
    } else {
        assert(t.subrange(0, k) == t);
    }
}

/// A tree whose uses are all fine has fine uses in every prefix.
proof fn lemma_uses_prefix(t: Seq<Spanned<Instruction>>, names: Seq<String>, k: int)
    requires
        0 <= k <= t.len(),
        !uses_ok(t.subrange(0, k), names),
    ensures
        !uses_ok(t, names),
    decreases t.len() - k,
{
    if k < t.len() {
        assert(t.subrange(0, k + 1).drop_last() == t.subrange(0, k));
        lemma_uses_prefix(t, names, k + 1);
    } else {
        assert(t.subrange(0, k) == t);
    }
}

/// Whether `key` is among the declared names.
fn find_name(names: &Vec<String>, key: &String) -> (r: bool)
    ensures
        r == declared(names@, key@),
{
    let mut i: usize = 0;
    while i < names.len()
        invariant
            i <= names@.len(),
            forall|j: int| 0 <= j < i ==> names@[j]@ != key@,
        decreases names.len() - i,
    {
        if names[i] == *key {
            return true;
        }
        i = i + 1;
    }
    false
}

/// The ingredient name an instruction uses, if it uses one.
fn ingredient_name(i: &Instruction) -> (r: Option<&String>)
    ensures
        match named_ingredient(*i) {
            Some(n) => r matches Some(s) && s@ == n,
            None => r is None,
        },
{
    match i {
        Instruction::Take(n) => Some(n),
        Instruction::Put(n, _) => Some(n),
        Instruction::Fold(n, _) => Some(n),
        Instruction::Add(n, _) => Some(n),
        Instruction::Remove(n, _) => Some(n),
        Instruction::Combine(n, _) => Some(n),
        Instruction::Divide(n, _) => Some(n),
        Instruction::Liquefy(n) => Some(n),
        Instruction::StirIngredient(n, _) => Some(n),
        _ => None,
    }
}

/// The first instruction of the tree that names an undeclared ingredient,
/// with that name.
fn check_uses(t: &Vec<Spanned<Instruction>>, names: &Vec<String>, ings: Ghost<Seq<Spanned<Ingredient>>>) -> (r: Option<(String, Span)>)
    requires
        declared_names(names@, ings@),
    ensures
        r is None <==> uses_ok(t@, names@),
        match r {
            Some((name, sp)) => first_bad_use(t@, ings@) == Some((name@, sp)),
            None => first_bad_use(t@, ings@) is None,
        },
    decreases t,
{
    let mut i: usize = 0;
    while i < t.len()
        invariant
            i <= t@.len(),
            uses_ok(t@.subrange(0, i as int), names@),
            declared_names(names@, ings@),
            first_bad_use(t@.subrange(0, i as int), ings@) is None,
        decreases t.len() - i,
    {
        assert(t@.subrange(0, i + 1).drop_last() == t@.subrange(0, i as int));
        assert(t@.subrange(0, i + 1).last() == t@[i as int]);
        match &t[i].0 {
            Instruction::VerbLoop(l) => {
                match check_uses(&l.instructions, names, ings) {
                    Some(found) => {
                        proof {
                            assert(!one_use_ok(t@[i as int], names@));
                            assert(!uses_ok(t@.subrange(0, i + 1), names@));
                            lemma_uses_prefix(t@, names@, i + 1);
                            assert(first_bad_use_one(t@[i as int], ings@) == Some((found.0@, found.1)));
                            assert(first_bad_use(t@.subrange(0, i + 1), ings@) == Some((found.0@, found.1)));
                            lemma_first_bad_use_prefix(t@, ings@, i + 1);
                        }
                        return Some(found);
                    },
                    None => {},
                }
            },
            other => match ingredient_name(other) {
                Some(n) => {
                    let key = lowercase(n.as_str());
                    if !find_name(names, &key) {
                        proof {
                            assert(!one_use_ok(t@[i as int], names@));
                            assert(!uses_ok(t@.subrange(0, i + 1), names@));
                            lemma_uses_prefix(t@, names@, i + 1);
                            if declares(ings@, key@) {
                                let w = choose|w: int| 0 <= w < ings@.len() && #[trigger] lower_of(ings@[w].0.name@) == key@;
                                assert(names@[w]@ == key@);
                            }
                            assert(first_bad_use_one(t@[i as int], ings@) == Some((n@, t@[i as int].1)));
                            assert(first_bad_use(t@.subrange(0, i + 1), ings@) == Some((n@, t@[i as int].1)));
                            lemma_first_bad_use_prefix(t@, ings@, i + 1);
                        }
                        return Some((n.clone(), t[i].1));
                    }
                },
                None => {},
            },
        }
        assert(one_use_ok(t@[i as int], names@));
        i = i + 1;
    }
    assert(t@.subrange(0, t@.len() as int) == t@);
    None
}

/// A program whose references all resolve: every `Serve with` names an
/// auxiliary recipe, and every recipe uses only ingredients it declares.
pub open spec fn program_valid(p: ChefProgram) -> bool {
    &&& refs_ok(p.main.instructions@, p.auxilary@)
    &&& forall|i: int| 0 <= i < p.auxilary@.len() ==> refs_ok(#[trigger] p.auxilary@[i].1.instructions@, p.auxilary@)
    &&& recipe_uses_ok(p.main)
    &&& forall|i: int| 0 <= i < p.auxilary@.len() ==> recipe_uses_ok(#[trigger] p.auxilary@[i].1)
}

/// Every ingredient named in the recipe's method is declared in its list.
pub open spec fn recipe_uses_ok(r: ChefRecipe<Instruction, Ingredient>) -> bool {
    forall|names: Seq<String>| declared_names(names, r.ingredients@) ==> uses_ok(r.instructions@, names)
}

/// The first `Serve with` of the program that names no auxiliary recipe:
/// the main recipe's first, else that of the first auxiliary recipe that
/// has one.
pub open spec fn program_bad_serve(p: ChefProgram) -> Option<(Seq<char>, Span)> {
    match first_bad_serve(p.main.instructions@, p.auxilary@) {
        Some(x) => Some(x),
        None => aux_bad_serve(p, 0),
    }
}

pub open spec fn aux_bad_serve(p: ChefProgram, i: int) -> Option<(Seq<char>, Span)>
    decreases p.auxilary@.len() - i,
{
    if i < 0 || i >= p.auxilary@.len() {
        None
    } else {
        match first_bad_serve(p.auxilary@[i].1.instructions@, p.auxilary@) {
            Some(x) => Some(x),
            None => aux_bad_serve(p, i + 1),
        }
    }
}

/// The error reports the program's first `Serve with` that names no
/// auxiliary recipe: its span, and a message that names the recipe and goes
/// on to list the available ones.
pub open spec fn recipe_error(p: ChefProgram, e: SpatulaError) -> bool {
    match program_bad_serve(p) {
        Some((name, sp)) => e.span == sp && e.message@ == recipe_message(name) + available(
            p.auxilary@,
        ),
        None => false,
    }
}

/// How the message about a missing recipe starts; the available recipes follow.
pub open spec fn recipe_message(name: Seq<char>) -> Seq<char> {
    "Recipe `"@ + name + "` not found. "@
}

/// The keys of the first `n` auxiliary recipes, separated by commas.
pub open spec fn key_list(aux: Seq<(String, ChefRecipe<Instruction, Ingredient>)>, n: int) -> Seq<char>
    decreases n,
{
    if n <= 0 {
        Seq::empty()
    } else if n == 1 {
        aux[0].0@
    } else {
        key_list(aux, n - 1) + ", "@ + aux[n - 1].0@
    }
}

/// The part of the message that lists the auxiliary recipes.
pub open spec fn available(aux: Seq<(String, ChefRecipe<Instruction, Ingredient>)>) -> Seq<char> {
    if aux.len() == 0 {
        "There are no auxiliary recipes"@
    } else {
        "Available recipes: "@ + key_list(aux, aux.len() as int)
    }
}

/// The error reports the recipe's first instruction that names an
/// undeclared ingredient: its span, and a message that names the ingredient.
pub open spec fn ingredient_error(r: ChefRecipe<Instruction, Ingredient>, e: SpatulaError) -> bool {
    match first_bad_use(r.instructions@, r.ingredients@) {
        Some((name, sp)) => e.span == sp && ingredient_message(name) == e.message@,
        None => false,
    }
}

pub open spec fn ingredient_message(name: Seq<char>) -> Seq<char> {
    "Ingredient `"@ + name + "` not found"@
}

/// Checks that every `Serve with` of the program names an auxiliary recipe.
#[verifier::rlimit(40)]
pub fn validate_recipe_references(program: &ChefProgram) -> (r: Result<(), SpatulaError>)
    ensures
        r is Ok <==> refs_ok(program.main.instructions@, program.auxilary@) && forall|i: int|
            0 <= i < program.auxilary@.len() ==> refs_ok(
                #[trigger] program.auxilary@[i].1.instructions@,
                program.auxilary@,
            ),
        r matches Err(e) ==> recipe_error(*program, e),
{
    let mut found = check_refs(&program.main.instructions, &program.auxilary);
    let mut i: usize = 0;
    while found.is_none() && i < program.auxilary.len()
        invariant
            i <= program.auxilary@.len(),
            found is None ==> refs_ok(program.main.instructions@, program.auxilary@),
            found is None ==> forall|j: int|
                0 <= j < i ==> refs_ok(#[trigger] program.auxilary@[j].1.instructions@, program.auxilary@),
            found is Some ==> !(refs_ok(program.main.instructions@, program.auxilary@) && forall|j: int|
                0 <= j < program.auxilary@.len() ==> refs_ok(
                    #[trigger] program.auxilary@[j].1.instructions@,
                    program.auxilary@,
                )),
            program_bad_serve(*program) == match found {
                Some(x) => Some((x.0@, x.1)),
                None => aux_bad_serve(*program, i as int),
            },
        decreases program.auxilary.len() - i,
    {
        found = check_refs(&program.auxilary[i].1.instructions, &program.auxilary);
        i = i + 1;
    }
    proof {
        if found is None {
            assert(aux_bad_serve(*program, i as int) is None);
        }
    }
    let ghost fv = found;
    assert(program_bad_serve(*program) == match fv {
        Some(x) => Some((x.0@, x.1)),
        None => None::<(Seq<char>, Span)>,
    });
    match found {
        None => Ok(()),
        Some((name, span)) => {
            assert(program_bad_serve(*program) == Some((name@, span)));
            let mut list = String::new();
            assert(key_list(program.auxilary@, 0) =~= Seq::<char>::empty());
            if program.auxilary.len() == 0 {
                append(&mut list, "There are no auxiliary recipes");
            } else {
                append(&mut list, "Available recipes: ");
                let mut j: usize = 0;
                while j < program.auxilary.len()
                    invariant
                        j <= program.auxilary@.len(),
                        list@ == "Available recipes: "@ + key_list(program.auxilary@, j as int),
                    decreases program.auxilary.len() - j,
                {
                    let ghost before = list@;
                    if j > 0 {
                        append(&mut list, ", ");
                    }
                    append(&mut list, program.auxilary[j].0.as_str());
                    assert(list@ =~= "Available recipes: "@ + key_list(program.auxilary@, j + 1));
                    j = j + 1;
                }
            }
            let mut message = String::new();
            append(&mut message, "Recipe `");
            append(&mut message, name.as_str());
            append(&mut message, "` not found. ");
            append(&mut message, list.as_str());
            let e = SpatulaError { message, span };
            assert(list@ == available(program.auxilary@));
            assert(recipe_message(name@) + list@ =~= e.message@);
            assert(recipe_error(*program, e));
            Err(e)
        },
    }
}

/// The lower-cased names that a recipe declares.
fn declared_list(ings: &Vec<Spanned<Ingredient>>) -> (r: Vec<String>)
    ensures
        declared_names(r@, ings@),
{
    let mut names: Vec<String> = Vec::new();
    let mut i: usize = 0;
    while i < ings.len()
        invariant
            i <= ings@.len(),
            names@.len() == i,
            forall|j: int| 0 <= j < i ==> #[trigger] names@[j]@ == lower_of(ings@[j].0.name@),
        decreases ings.len() - i,
    {
        names.push(lowercase(ings[i].0.name.as_str()));
        i = i + 1;
    }
    names
}

proof fn lemma_names_unique(a: Seq<String>, b: Seq<String>, ings: Seq<Spanned<Ingredient>>, t: Seq<Spanned<Instruction>>)
    requires
        declared_names(a, ings),
        declared_names(b, ings),
    ensures
        uses_ok(t, a) == uses_ok(t, b),
    decreases t,
{
    assert forall|key: Seq<char>| declared(a, key) == declared(b, key) by {
        if declared(a, key) {
            let i = choose|i: int| 0 <= i < a.len() && #[trigger] a[i]@ == key;
            assert(b[i]@ == key);
        }
        if declared(b, key) {
            let i = choose|i: int| 0 <= i < b.len() && #[trigger] b[i]@ == key;
            assert(a[i]@ == key);
        }
    }
    if t.len() > 0 {
        lemma_names_unique(a, b, ings, t.drop_last());
        match t.last().0 {
            Instruction::VerbLoop(l) => {
                lemma_names_unique(a, b, ings, l.instructions@);
            },
            other => {
                match named_ingredient(other) {
                    Some(n) => {
                        assert(declared(a, lower_of(n)) == declared(b, lower_of(n)));
                    },
                    None => {},
                }
            },
        }
        assert(one_use_ok(t.last(), a) == one_use_ok(t.last(), b));
    }
}

/// Checks that every ingredient named in the recipe's method is declared.
pub fn validate_ingredient_references(recipe: &ChefRecipe<Instruction, Ingredient>) -> (r: Result<
    (),
    SpatulaError,
>)
    ensures
        r is Ok <==> recipe_uses_ok(*recipe),
        r matches Err(e) ==> ingredient_error(*recipe, e),
        r is Ok ==> first_bad_use(recipe.instructions@, recipe.ingredients@) is None,
{
    let names = declared_list(&recipe.ingredients);
    proof {
        assert forall|other: Seq<String>| declared_names(other, recipe.ingredients@) implies uses_ok(
            recipe.instructions@,
            other,
        ) == uses_ok(recipe.instructions@, names@) by {
            lemma_names_unique(other, names@, recipe.ingredients@, recipe.instructions@);
        }
    }
    match check_uses(&recipe.instructions, &names, Ghost(recipe.ingredients@)) {
        None => Ok(()),
        Some((name, span)) => {
            let mut message = String::new();
            append(&mut message, "Ingredient `");
            append(&mut message, name.as_str());
            append(&mut message, "` not found");
            let e = SpatulaError { message, span };
            assert(ingredient_message(name@) =~= e.message@);
            Err(e)
        },
    }
}

/// Auxiliary recipe `i` is the first recipe of the program, main first,
/// with an undeclared ingredient, and the error reports it.
pub open spec fn first_use_error_at(p: ChefProgram, i: int, e: SpatulaError) -> bool {
    &&& first_bad_use(p.main.instructions@, p.main.ingredients@) is None
    &&& forall|j: int|
        0 <= j < i ==> first_bad_use(
            #[trigger] p.auxilary@[j].1.instructions@,
            p.auxilary@[j].1.ingredients@,
        ) is None
    &&& ingredient_error(p.auxilary@[i].1, e)
}

/// Checks a program before it runs. Succeeds exactly when every `Serve
/// with` names an auxiliary recipe (in lower case) and every recipe declares
/// the ingredients that its method names.
pub fn validate(program: &ChefProgram) -> (r: Result<(), SpatulaError>)
    ensures
        r is Ok <==> program_valid(*program),
        r matches Err(e) ==> if refs_ok(program.main.instructions@, program.auxilary@) && forall|i: int|
            0 <= i < program.auxilary@.len() ==> refs_ok(
                #[trigger] program.auxilary@[i].1.instructions@,
                program.auxilary@,
            ) {
            ingredient_error(program.main, e) || exists|i: int|
                0 <= i < program.auxilary@.len() && first_use_error_at(*program, i, e)
        } else {
            recipe_error(*program, e)
        },
{
    validate_recipe_references(program)?;
    validate_ingredient_references(&program.main)?;
    let mut i: usize = 0;
    while i < program.auxilary.len()
        invariant
            i <= program.auxilary@.len(),
            refs_ok(program.main.instructions@, program.auxilary@),
            forall|j: int| 0 <= j < program.auxilary@.len() ==> refs_ok(#[trigger] program.auxilary@[j].1.instructions@, program.auxilary@),
            recipe_uses_ok(program.main),
            forall|j: int| 0 <= j < i ==> recipe_uses_ok(#[trigger] program.auxilary@[j].1),
            first_bad_use(program.main.instructions@, program.main.ingredients@) is None,
            forall|j: int|
                0 <= j < i ==> first_bad_use(
                    #[trigger] program.auxilary@[j].1.instructions@,
                    program.auxilary@[j].1.ingredients@,
                ) is None,
        decreases program.auxilary.len() - i,
    {
        match validate_ingredient_references(&program.auxilary[i].1) {
            Ok(()) => {},
            Err(e) => {
                assert(first_use_error_at(*program, i as int, e));
                return Err(e);
            },
        }
        i = i + 1;
    }
    Ok(())
}

} // verus!
