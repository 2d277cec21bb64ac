//! Properties of running programs, proved over the semantics.
use vstd::prelude::*;

use crate::kitchen::{lemma_with_stack, IngredientAmount};
use crate::parser::ast::{IngredientKind, Span, Spanned};
use crate::parser::stage_two_ast::{ChefProgram, Instruction};
use crate::semantics::{
    bowl, dish, emptied, roll, run_instruction, serve, shown, shuffle, step, swap, value_of,
    Signal, State,
};
use crate::text::{decimal, wet_char};

verus! {

/// Values in a bowl are snapshots. After `Put i`, neither `Liquefy i` nor
/// `Take i` changes any bowl: the value put keeps the kind it had.
pub proof fn bowl_snapshot(inp: Seq<String>, s: State, name: String, n: usize, span: Span)
    requires
        value_of(s, name@) is Ok,
    ensures
        ({
            let s1 = step(inp, s, Instruction::Put(name, n), span).0;
            let liquefied = step(inp, s1, Instruction::Liquefy(name), span).0;
            let taken = step(inp, s1, Instruction::Take(name), span).0;
            &&& bowl(s1, n).last() == value_of(s, name@)->Ok_0
            &&& liquefied.bowls == s1.bowls
            &&& taken.bowls == s1.bowls
            &&& bowl(liquefied, n).last().kind == value_of(s, name@)->Ok_0.kind
        }),
{
    let v = value_of(s, name@)->Ok_0;
    lemma_with_stack(s.bowls, n, bowl(s, n).push(v), n);
}

/// A call of an auxiliary recipe that succeeds changes, of the caller's
/// frame, only the first mixing bowl, and that only by values put on top of
/// it: the ingredients, every other bowl and every dish stay as they were.
pub proof fn subroutine_isolation(p: ChefProgram, inp: Seq<String>, s: State, name: String, span: Span, fuel: nat)
    ensures
        ({
            let (s2, r) = run_instruction(p, inp, s, Spanned(Instruction::ServeWith(name), span), fuel);
            r is Ok ==> {
                &&& s2.env == s.env
                &&& s2.dishes == s.dishes
                &&& forall|m: usize| m != 0 ==> #[trigger] bowl(s2, m) == bowl(s, m)
                &&& exists|top: Seq<IngredientAmount>| bowl(s2, 0) == bowl(s, 0) + top
            }
        }),
{
    let (s2, r) = run_instruction(p, inp, s, Spanned(Instruction::ServeWith(name), span), fuel);
    if r is Ok {
        let k = crate::semantics::recipe_index(p.auxilary@, crate::text::lower_of(name@));
        let callee = p.auxilary@[k].1;
        let start = State { env: crate::semantics::initial_env(callee.ingredients@), ..s };
        let (s3, r3) = crate::semantics::run_recipe(p, inp, start, callee, false, (fuel - 1) as nat);
        let back = crate::semantics::resume(s, s3);
        assert(s2 == crate::semantics::set_bowl(back, 0, bowl(s, 0) + bowl(s3, 0)));
        assert forall|m: usize| m != 0 implies #[trigger] bowl(s2, m) == bowl(s, m) by {
            lemma_with_stack(back.bowls, 0, bowl(s, 0) + bowl(s3, 0), m);
        }
        lemma_with_stack(back.bowls, 0, bowl(s, 0) + bowl(s3, 0), 0);
        assert(bowl(s2, 0) == bowl(s, 0) + bowl(s3, 0));
    }
}

/// Stirring only reorders a bowl: the values it holds, counted with their
/// repetitions, are the same before and after.
pub proof fn stir_permutes(b: Seq<IngredientAmount>, m: usize)
    requires
        b.len() > 0,
    ensures
        roll(b, m).len() == b.len(),
        roll(b, m).to_multiset() == b.to_multiset(),
{
    let rest = b.drop_last();
    let pos = if m >= rest.len() {
        0
    } else {
        rest.len() - m
    };
    assert(b == rest.push(b.last()));
    vstd::seq_lib::to_multiset_build(rest, b.last());
    vstd::seq_lib::to_multiset_insert(rest, pos, b.last());
}

/// `Stir n for m minutes` on a bowl that is not empty succeeds, reorders
/// bowl `n` and changes nothing else.
pub proof fn stir_step_permutes(inp: Seq<String>, s: State, n: usize, m: usize, span: Span)
    requires
        bowl(s, n).len() > 0,
    ensures
        ({
            let (s2, r) = step(inp, s, Instruction::Stir(n, m), span);
            &&& r == Ok::<Signal, crate::semantics::RuntimeError>(Signal::Normal)
            &&& bowl(s2, n).to_multiset() == bowl(s, n).to_multiset()
            &&& forall|k: usize| k != n ==> #[trigger] bowl(s2, k) == bowl(s, k)
            &&& s2.env == s.env && s2.dishes == s.dishes && s2.output == s.output
        }),
{
    stir_permutes(bowl(s, n), m);
    lemma_with_stack(s.bowls, n, roll(bowl(s, n), m), n);
    assert forall|k: usize| k != n implies #[trigger] bowl(step(inp, s, Instruction::Stir(n, m), span).0, k) == bowl(s, k) by {
        lemma_with_stack(s.bowls, n, roll(bowl(s, n), m), k);
    }
}

/// Swapping two values only reorders them.
proof fn swap_permutes(b: Seq<IngredientAmount>, i: int, j: int)
    requires
        0 <= i < b.len(),
        0 <= j < b.len(),
    ensures
        swap(b, i, j).to_multiset() == b.to_multiset(),
        swap(b, i, j).len() == b.len(),
{
    broadcast use vstd::multiset::group_multiset_axioms;

    let b1 = b.update(i, b[j]);
    vstd::seq_lib::to_multiset_update(b, i, b[j]);
    vstd::seq_lib::to_multiset_update(b1, j, b[i]);
    vstd::seq_lib::to_multiset_contains(b, b[i]);
    vstd::seq_lib::to_multiset_contains(b, b[j]);
    assert(b.contains(b[i]));
    assert(b.contains(b[j]));
    assert(b1[j] == b[j]);
    let m = b.to_multiset();
    assert(b1.to_multiset() == m.insert(b[j]).remove(b[i]));
    assert(swap(b, i, j).to_multiset() == m.insert(b[j]).remove(b[i]).insert(b[i]).remove(b[j]));
    assert(m.insert(b[j]).remove(b[i]).insert(b[i]).remove(b[j]) =~= m);
}

/// `Mix` only reorders a bowl.
pub proof fn shuffle_permutes(b: Seq<IngredientAmount>, seed: u64, i: nat)
    requires
        b.len() <= u64::MAX,
    ensures
        shuffle(b, seed, i).0.len() == b.len(),
        shuffle(b, seed, i).0.to_multiset() == b.to_multiset(),
    decreases i,
{
    if i > 1 && i <= b.len() {
        let s2 = crate::semantics::next_seed(seed);
        let j = (s2 % (i as u64)) as int;
        assert(s2 % (i as u64) < i as u64);
        swap_permutes(b, i - 1, j);
        shuffle_permutes(swap(b, i - 1, j), s2, (i - 1) as nat);
    }
}

/// How values print: a dry or unspecified value as its decimal digits, a
/// wet one as the single character whose scalar value is the value modulo
/// 0x110000 (U+FFFD where that is a surrogate). `Serves 1` prints the first
/// dish from the top down, then a line break.
pub proof fn serves_formatting(v: IngredientAmount, s: State)
    ensures
        v.kind != IngredientKind::Wet ==> shown(v) == decimal(v.amount as nat),
        v.kind == IngredientKind::Wet ==> shown(v) == seq![wet_char(v.amount)],
        ({
            let x = (v.amount % 0x110000) as u32;
            x < 0xD800 || 0xDFFF < x ==> wet_char(v.amount) == x as char
        }),
        serve(s, 1).output == s.output + emptied(dish(s, 0)) + seq!['\n'],
        emptied(seq![v]) == shown(v),
{
    assert(seq![v].drop_last() =~= Seq::<IngredientAmount>::empty());
    assert(crate::semantics::serve_from(s, 0, 1) == crate::semantics::serve_from(
        State {
            dishes: crate::kitchen::with_stack(s.dishes, 0, Seq::empty()),
            output: s.output + emptied(crate::kitchen::stack_of(s.dishes, 0)),
            ..s
        },
        1,
        1,
    ));
    assert(emptied(seq![v]) =~= shown(v) + emptied(Seq::<IngredientAmount>::empty()));
}

/// What `Serves n` prints of the dishes `d` from dish `k + 1` on: each
/// dish from the top down, dish after dish.
pub open spec fn dishes_text(d: crate::kitchen::StacksView, k: nat, n: nat) -> Seq<char>
    decreases n - k,
{
    if k >= n {
        Seq::empty()
    } else {
        emptied(crate::kitchen::stack_of(d, crate::parser::stage_one::utensil((k + 1) as usize)))
            + dishes_text(d, k + 1, n)
    }
}

proof fn lemma_dishes_text_skip(d: crate::kitchen::StacksView, m: usize, k0: nat, k: nat, n: nat)
    requires
        n <= usize::MAX,
        k0 < k,
        m == crate::parser::stage_one::utensil((k0 + 1) as usize),
    ensures
        dishes_text(crate::kitchen::with_stack(d, m, Seq::empty()), k, n) == dishes_text(d, k, n),
    decreases n - k,
{
    if k < n {
        lemma_with_stack(d, m, Seq::empty(), crate::parser::stage_one::utensil((k + 1) as usize));
        lemma_dishes_text_skip(d, m, k0, k + 1, n);
    }
}

proof fn lemma_serve_from(s: State, k: nat, n: nat)
    requires
        n <= usize::MAX,
    ensures
        crate::semantics::serve_from(s, k, n).output == s.output + dishes_text(s.dishes, k, n),
    decreases n - k,
{
    if k < n {
        let m = crate::parser::stage_one::utensil((k + 1) as usize);
        let s2 = State {
            dishes: crate::kitchen::with_stack(s.dishes, m, Seq::empty()),
            output: s.output + emptied(crate::kitchen::stack_of(s.dishes, m)),
            ..s
        };
        lemma_serve_from(s2, k + 1, n);
        lemma_dishes_text_skip(s.dishes, m, k, k + 1, n);
        assert(s.output + emptied(crate::kitchen::stack_of(s.dishes, m)) + dishes_text(
            s.dishes,
            k + 1,
            n,
        ) =~= s.output + dishes_text(s.dishes, k, n));
    } else {
        assert(s.output + dishes_text(s.dishes, k, n) =~= s.output);
    }
}

/// `Serves n` prints dishes 1 to `n` in order, each from the top down, each
/// value as `shown` says, then one line break.
pub proof fn serves_prints_dishes(s: State, n: usize)
    ensures
        serve(s, n).output == s.output + dishes_text(s.dishes, 0, n as nat) + seq!['\n'],
{
    lemma_serve_from(s, 0, n as nat);
}

} // verus!
