//! What running a program means, stated as spec functions over an abstract
//! state. The interpreter is proved to compute exactly this.
use vstd::prelude::*;

use crate::kitchen::{
    slot_index, stack_of, with_stack, IngredientAmount, SlotView, StacksView,
};
use crate::parser::ast::{ChefRecipe, Ingredient, IngredientKind, Span, Spanned};
use crate::parser::stage_one::utensil;
use crate::parser::stage_two_ast::{ChefProgram, Instruction, VerbLoop};
use crate::text::{decimal, line_number, lower_of, wet_char};

verus! {

/// How an instruction or a block ended, when it did not fail.
#[derive(Clone, Copy, Debug, PartialEq, Eq, Structural)]
pub enum Signal {
    /// Go on with the next instruction.
    Normal,
    /// `Set aside` asked to leave the innermost loop; the span is its own.
    Break(Span),
    /// `Refrigerate` ended the recipe.
    Stop,
}

/// What went wrong while running.
#[derive(Clone, Copy, Debug, PartialEq, Eq, Structural)]
pub enum Fault {
    /// The instruction names an ingredient the recipe does not declare.
    UnknownIngredient,
    /// The ingredient has no value yet.
    Uninitialised,
    /// A value was taken from an empty mixing bowl.
    EmptyBowl,
    DivisionByZero,
    /// An arithmetic result falls outside `0..=usize::MAX`.
    Overflow,
    /// `Set aside` outside any loop.
    SetAsideOutsideLoop,
    /// `Take` found no further number in the input.
    EndOfInput,
    /// `Serve with` names no auxiliary recipe.
    UnknownRecipe,
    /// The step budget given to the run was used up.
    OutOfFuel,
}

/// A run-time failure and the instruction it happened at.
#[derive(Clone, Copy, Debug, PartialEq, Eq, Structural)]
pub struct RuntimeError {
    pub fault: Fault,
    pub span: Span,
}

/// The state of a running recipe: the call frame (ingredients, bowls,
/// dishes) and what all frames share (the input read so far, the output
/// written so far, the shuffling seed).
pub struct State {
    pub env: Seq<SlotView>,
    pub bowls: StacksView,
    pub dishes: StacksView,
    pub cursor: nat,
    pub output: Seq<char>,
    pub seed: u64,
}

pub type Outcome = (State, Result<Signal, RuntimeError>);

pub open spec fn fail(s: State, fault: Fault, span: Span) -> Outcome {
    (s, Err(RuntimeError { fault, span }))
}

pub open spec fn go_on(s: State) -> Outcome {
    (s, Ok(Signal::Normal))
}

pub open spec fn bowl(s: State, n: usize) -> Seq<IngredientAmount> {
    stack_of(s.bowls, n)
}

pub open spec fn dish(s: State, n: usize) -> Seq<IngredientAmount> {
    stack_of(s.dishes, n)
}

pub open spec fn set_bowl(s: State, n: usize, b: Seq<IngredientAmount>) -> State {
    State { bowls: with_stack(s.bowls, n, b), ..s }
}

pub open spec fn set_value(s: State, i: int, v: Option<IngredientAmount>) -> State {
    State { env: s.env.update(i, (s.env[i].0, s.env[i].1, v)), ..s }
}

/// The current value of the ingredient called `name` (in any case).
pub open spec fn env_value(env: Seq<SlotView>, name: Seq<char>) -> Result<IngredientAmount, Fault> {
    let i = slot_index(env, lower_of(name));
    if i < 0 {
        Err(Fault::UnknownIngredient)
    } else {
        match env[i].2 {
            Some(v) => Ok(v),
            None => Err(Fault::Uninitialised),
        }
    }
}

pub open spec fn value_of(s: State, name: Seq<char>) -> Result<IngredientAmount, Fault> {
    env_value(s.env, name)
}

/// Declares an ingredient: a name already present is replaced in place.
pub open spec fn declare(env: Seq<SlotView>, key: Seq<char>, kind: IngredientKind, v: Option<IngredientAmount>) -> Seq<SlotView> {
    let i = slot_index(env, key);
    if i >= 0 {
        env.update(i, (key, kind, v))
    } else {
        env.push((key, kind, v))
    }
}

/// The ingredients of a recipe when it starts: its declarations in order,
/// a later one of the same name replacing an earlier one.
pub open spec fn initial_env(ings: Seq<Spanned<Ingredient>>) -> Seq<SlotView>
    decreases ings.len(),
{
    if ings.len() == 0 {
        Seq::empty()
    } else {
        let d = ings.last().0;
        declare(
            initial_env(ings.drop_last()),
            lower_of(d.name@),
            d.kind,
            match d.initial_value {
                Some(x) => Some(IngredientAmount { amount: x, kind: d.kind }),
                None => None,
            },
        )
    }
}

/// The next number in the input from line `c` on, lines that hold none
/// being skipped; with the line after it.
pub open spec fn next_number(inp: Seq<String>, c: nat) -> Option<(usize, nat)>
    decreases inp.len() - c,
{
    if c >= inp.len() {
        None
    } else {
        match line_number(inp[c as int]@) {
            Some(v) => Some((v, c + 1)),
            None => next_number(inp, c + 1),
        }
    }
}

/// The four operations that combine the top of a bowl with an ingredient.
pub enum ArithOp {
    Add,
    Sub,
    Mul,
    Div,
}

/// The top of a bowl combined with an ingredient's value.
pub open spec fn arith(op: ArithOp, a: usize, b: usize) -> Result<usize, Fault> {
    match op {
        ArithOp::Add => if a + b > usize::MAX {
            Err(Fault::Overflow)
        } else {
            Ok((a + b) as usize)
        },
        ArithOp::Sub => if a < b {
            Err(Fault::Overflow)
        } else {
            Ok((a - b) as usize)
        },
        ArithOp::Mul => if a * b > usize::MAX {
            Err(Fault::Overflow)
        } else {
            Ok((a * b) as usize)
        },
        ArithOp::Div => if b == 0 {
            Err(Fault::DivisionByZero)
        } else {
            Ok((a / b) as usize)
        },
    }
}

/// The top of the stack moved down `m` places: it lands at `max(0, k - 1 - m)`
/// counted from the bottom, `k` being the stack's size.
pub open spec fn roll(b: Seq<IngredientAmount>, m: usize) -> Seq<IngredientAmount> {
    let rest = b.drop_last();
    let pos = if m >= rest.len() {
        0
    } else {
        rest.len() - m
    };
    rest.insert(pos, b.last())
}

/// The sum of the ingredients whose current value is not wet.
pub open spec fn dry_total(env: Seq<SlotView>) -> nat
    decreases env.len(),
{
    if env.len() == 0 {
        0
    } else {
        dry_total(env.drop_last()) + match env.last().2 {
            Some(v) => if v.kind != IngredientKind::Wet {
                v.amount as nat
            } else {
                0
            },
            None => 0,
        }
    }
}

/// The next value of the shuffling generator.
pub open spec fn next_seed(x: u64) -> u64 {
    let a = x ^ (x << 13u64);
    let b = a ^ (a >> 7u64);
    b ^ (b << 17u64)
}

pub open spec fn swap(b: Seq<IngredientAmount>, i: int, j: int) -> Seq<IngredientAmount> {
    b.update(i, b[j]).update(j, b[i])
}

/// Shuffles the first `i` values: the one at `i - 1` is swapped with one
/// that the generator picks, then the first `i - 1` are shuffled.
pub open spec fn shuffle(b: Seq<IngredientAmount>, seed: u64, i: nat) -> (Seq<IngredientAmount>, u64)
    decreases i,
{
    if i <= 1 || i > b.len() {
        (b, seed)
    } else {
        let s2 = next_seed(seed);
        let j = (s2 % (i as u64)) as int;
        shuffle(swap(b, i - 1, j), s2, (i - 1) as nat)
    }
}

/// How a value prints: a wet one as a character, any other as a number.
pub open spec fn shown(v: IngredientAmount) -> Seq<char> {
    if v.kind == IngredientKind::Wet {
        seq![wet_char(v.amount)]
    } else {
        decimal(v.amount as nat)
    }
}

/// A dish emptied from the top: what prints.
pub open spec fn emptied(d: Seq<IngredientAmount>) -> Seq<char>
    decreases d.len(),
{
    if d.len() == 0 {
        Seq::empty()
    } else {
        shown(d.last()) + emptied(d.drop_last())
    }
}

/// Prints dishes `k + 1` to `n` in order, emptying each.
pub open spec fn serve_from(s: State, k: nat, n: nat) -> State
    decreases n - k,
{
    if k >= n {
        s
    } else {
        let d = utensil((k + 1) as usize);
        let s2 = State {
            dishes: with_stack(s.dishes, d, Seq::empty()),
            output: s.output + emptied(stack_of(s.dishes, d)),
            ..s
        };
        serve_from(s2, k + 1, n)
    }
}

/// `Serves n`: the first `n` dishes printed and emptied, then a line break.
pub open spec fn serve(s: State, n: usize) -> State {
    let s2 = serve_from(s, 0, n as nat);
    State { output: s2.output.push('\n'), ..s2 }
}

/// An instruction that neither loops nor calls, run in state `s`.
pub open spec fn step(inp: Seq<String>, s: State, i: Instruction, span: Span) -> Outcome {
    match i {
        Instruction::Take(name) => {
            let k = slot_index(s.env, lower_of(name@));
            if k < 0 {
                fail(s, Fault::UnknownIngredient, span)
            } else {
                match next_number(inp, s.cursor) {
                    None => fail(State { cursor: inp.len(), ..s }, Fault::EndOfInput, span),
                    Some((v, c)) => go_on(
                        State {
                            cursor: c,
                            ..set_value(s, k, Some(IngredientAmount { amount: v, kind: s.env[k].1 }))
                        },
                    ),
                }
            }
        },
        Instruction::Put(name, n) => match value_of(s, name@) {
            Err(f) => fail(s, f, span),
            Ok(v) => go_on(set_bowl(s, n, bowl(s, n).push(v))),
        },
        Instruction::Fold(name, n) => {
            let k = slot_index(s.env, lower_of(name@));
            if k < 0 {
                fail(s, Fault::UnknownIngredient, span)
            } else if bowl(s, n).len() == 0 {
                fail(s, Fault::EmptyBowl, span)
            } else {
                go_on(set_value(set_bowl(s, n, bowl(s, n).drop_last()), k, Some(bowl(s, n).last())))
            }
        },
        Instruction::Add(name, n) => arith_step(s, ArithOp::Add, name@, n, span),
        Instruction::Remove(name, n) => arith_step(s, ArithOp::Sub, name@, n, span),
        Instruction::Combine(name, n) => arith_step(s, ArithOp::Mul, name@, n, span),
        Instruction::Divide(name, n) => arith_step(s, ArithOp::Div, name@, n, span),
        Instruction::AddDryIngredients(n) => if dry_total(s.env) > usize::MAX {
            fail(s, Fault::Overflow, span)
        } else {
            go_on(
                set_bowl(
                    s,
                    n,
                    seq![IngredientAmount { amount: dry_total(s.env) as usize, kind: IngredientKind::Dry }],
                ),
            )
        },
        Instruction::Liquefy(name) => match value_of(s, name@) {
            Err(f) => fail(s, f, span),
            Ok(v) => go_on(
                set_value(
                    s,
                    slot_index(s.env, lower_of(name@)),
                    Some(IngredientAmount { amount: v.amount, kind: IngredientKind::Wet }),
                ),
            ),
        },
        Instruction::LiquefyContents(n) => go_on(
            set_bowl(
                s,
                n,
                bowl(s, n).map_values(
                    |v: IngredientAmount| IngredientAmount { amount: v.amount, kind: IngredientKind::Wet },
                ),
            ),
        ),
        Instruction::Stir(n, m) => if bowl(s, n).len() == 0 {
            fail(s, Fault::EmptyBowl, span)
        } else {
            go_on(set_bowl(s, n, roll(bowl(s, n), m)))
        },
        Instruction::StirIngredient(name, n) => match value_of(s, name@) {
            Err(f) => fail(s, f, span),
            Ok(v) => if bowl(s, n).len() == 0 {
                fail(s, Fault::EmptyBowl, span)
            } else {
                go_on(set_bowl(s, n, roll(bowl(s, n), v.amount)))
            },
        },
        Instruction::Mix(n) => {
            let (b, seed) = shuffle(bowl(s, n), s.seed, bowl(s, n).len());
            go_on(State { seed, ..set_bowl(s, n, b) })
        },
        Instruction::Clean(n) => go_on(set_bowl(s, n, Seq::empty())),
        Instruction::Pour(n, d) => go_on(
            State { dishes: with_stack(s.dishes, d, dish(s, d) + bowl(s, n)), ..s },
        ),
        Instruction::SetAside => (s, Ok(Signal::Break(span))),
        Instruction::Refrigerate(h) => match h {
            Some(h) => (serve(s, h), Ok(Signal::Stop)),
            None => (s, Ok(Signal::Stop)),
        },
        Instruction::Serves(n) => go_on(serve(s, n)),
        // Loops and calls are not single steps; see `run_instruction`.
        _ => go_on(s),
    }
}

/// Add, Remove, Combine or Divide: a new value on the bowl from its top and
/// the ingredient, of the ingredient's kind.
pub open spec fn arith_step(s: State, op: ArithOp, name: Seq<char>, n: usize, span: Span) -> Outcome {
    match value_of(s, name) {
        Err(f) => fail(s, f, span),
        Ok(v) => if bowl(s, n).len() == 0 {
            fail(s, Fault::EmptyBowl, span)
        } else {
            match arith(op, bowl(s, n).last().amount, v.amount) {
                Err(f) => fail(s, f, span),
                Ok(x) => go_on(set_bowl(s, n, bowl(s, n).push(IngredientAmount { amount: x, kind: v.kind }))),
            }
        },
    }
}

/// Where the auxiliary recipe under `key` is kept, or -1.
pub open spec fn recipe_index(aux: Seq<(String, ChefRecipe<Instruction, Ingredient>)>, key: Seq<char>) -> int
    decreases aux.len(),
{
    if aux.len() == 0 {
        -1
    } else if aux.last().0@ == key {
        aux.len() - 1
    } else {
        recipe_index(aux.drop_last(), key)
    }
}

/// The caller's frame with what the callee left of the shared state.
pub open spec fn resume(caller: State, callee: State) -> State {
    State { cursor: callee.cursor, output: callee.output, seed: callee.seed, ..caller }
}

/// Runs the instructions of `t` from index `i` on, until one does not end
/// normally. `fuel` bounds how many loop rounds and calls may nest and follow.
pub open spec fn run_block(p: ChefProgram, inp: Seq<String>, s: State, t: Seq<Spanned<Instruction>>, i: int, fuel: nat) -> Outcome
    decreases fuel, 2int, t.len() - i,
{
    if i < 0 || i >= t.len() {
        go_on(s)
    } else {
        let (s2, r) = run_instruction(p, inp, s, t[i], fuel);
        match r {
            Ok(Signal::Normal) => run_block(p, inp, s2, t, i + 1, fuel),
            _ => (s2, r),
        }
    }
}

/// Runs one instruction of the tree.
pub open spec fn run_instruction(p: ChefProgram, inp: Seq<String>, s: State, x: Spanned<Instruction>, fuel: nat) -> Outcome
    decreases fuel, 1int, 0int,
{
    match x.0 {
        Instruction::VerbLoop(l) => run_loop(p, inp, s, l, x.1, fuel),
        Instruction::ServeWith(name) => {
            let k = recipe_index(p.auxilary@, lower_of(name@));
            if k < 0 {
                fail(s, Fault::UnknownRecipe, x.1)
            } else if fuel == 0 {
                fail(s, Fault::OutOfFuel, x.1)
            } else {
                let callee = p.auxilary@[k].1;
                let start = State { env: initial_env(callee.ingredients@), ..s };
                let (s2, r) = run_recipe(p, inp, start, callee, false, (fuel - 1) as nat);
                match r {
                    Err(e) => (resume(s, s2), Err(e)),
                    Ok(()) => go_on(set_bowl(resume(s, s2), 0, bowl(s, 0) + bowl(s2, 0))),
                }
            }
        },
        other => step(inp, s, other, x.1),
    }
}

/// The guard's value lowered by one, not below zero.
pub open spec fn decrement(s: State, name: Seq<char>) -> Result<State, Fault> {
    match value_of(s, name) {
        Err(f) => Err(f),
        Ok(v) => Ok(
            set_value(
                s,
                slot_index(s.env, lower_of(name)),
                Some(
                    IngredientAmount {
                        amount: if v.amount == 0 {
                            0
                        } else {
                            (v.amount - 1) as usize
                        },
                        kind: v.kind,
                    },
                ),
            ),
        ),
    }
}

/// A loop: while the guard is not zero, run the body, then lower the guard
/// by one. `Set aside` leaves the loop at once, without lowering it.
pub open spec fn run_loop(p: ChefProgram, inp: Seq<String>, s: State, l: VerbLoop, span: Span, fuel: nat) -> Outcome
    decreases fuel, 0int, 0int,
{
    match value_of(s, l.ingredient@) {
        Err(f) => fail(s, f, span),
        Ok(v) => if v.amount == 0 {
            go_on(s)
        } else if fuel == 0 {
            fail(s, Fault::OutOfFuel, span)
        } else {
            let (s2, r) = run_block(p, inp, s, l.instructions@, 0, (fuel - 1) as nat);
            match r {
                Err(e) => (s2, Err(e)),
                Ok(Signal::Break(_)) => go_on(s2),
                Ok(Signal::Stop) => (s2, Ok(Signal::Stop)),
                Ok(Signal::Normal) => match decrement(s2, l.ingredient@) {
                    Err(f) => fail(s2, f, span),
                    Ok(s3) => run_loop(p, inp, s3, l, span, (fuel - 1) as nat),
                },
            }
        },
    }
}

/// Runs a recipe in the frame `s`, whose ingredients are the recipe's own.
/// A `Set aside` that leaves the recipe's method is a run-time error. When
/// the main recipe ends normally (not by `Refrigerate`), its `Serves` line
/// prints the dishes.
pub open spec fn run_recipe(
    p: ChefProgram,
    inp: Seq<String>,
    s: State,
    recipe: ChefRecipe<Instruction, Ingredient>,
    main: bool,
    fuel: nat,
) -> (State, Result<(), RuntimeError>)
    decreases fuel, 3int, 0int,
{
    let (s1, r) = run_block(p, inp, s, recipe.instructions@, 0, fuel);
    match r {
        Err(e) => (s1, Err(e)),
        Ok(Signal::Break(sp)) => (s1, Err(RuntimeError { fault: Fault::SetAsideOutsideLoop, span: sp })),
        Ok(Signal::Stop) => (s1, Ok(())),
        Ok(Signal::Normal) => match recipe.serves {
            Some(n) => if main {
                (serve(s1, n.0), Ok(()))
            } else {
                (s1, Ok(()))
            },
            None => (s1, Ok(())),
        },
    }
}

/// A whole run: the main recipe from empty bowls and dishes. The printed
/// text, and whether it failed.
pub open spec fn run_program(p: ChefProgram, inp: Seq<String>, seed: u64, fuel: nat) -> (Seq<char>, Result<(), RuntimeError>) {
    let s0 = State {
        env: initial_env(p.main.ingredients@),
        bowls: Seq::empty(),
        dishes: Seq::empty(),
        cursor: 0,
        output: Seq::empty(),
        seed,
    };
    let (s1, r) = run_recipe(p, inp, s0, p.main, true, fuel);
    (s1.output, r)
}

} // verus!
