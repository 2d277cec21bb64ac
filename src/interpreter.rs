//! Runs a checked program: a stack machine over ingredients, mixing bowls
//! and baking dishes, proved to follow the semantics in `semantics`.
use vstd::prelude::*;

pub use crate::kitchen::IngredientAmount;
use crate::kitchen::{
    copy_stack, copy_stacks, find_slot, get_stack, lemma_slot_index, lemma_stack_index,
    set_stack, slot_index, slots_view, stack_of, stacks_view, Slot, Stacks,
};
use crate::parser::ast::{ChefRecipe, Ingredient, IngredientKind, Span, Spanned};
use crate::parser::stage_two_ast::{ChefProgram, Instruction, VerbLoop};
use crate::semantics::{
    arith, decrement, dry_total, emptied, env_value, go_on, initial_env, next_number, next_seed,
    recipe_index, resume, roll, run_block, run_instruction, run_loop, run_program, run_recipe, serve,
    serve_from, shown, shuffle, step, swap, value_of, ArithOp, Fault, RuntimeError, Signal, State,
};
use crate::text::{lower_of, lowercase, parse_line_number, push_char, push_decimal, to_wet_char};

verus! {

/// The call frame of a running recipe.
pub struct Kitchen {
    pub ingredients: Vec<Slot>,
    pub bowls: Stacks,
    pub dishes: Stacks,
}

/// What all call frames share: the next input line, the output so far and
/// the shuffling seed.
pub struct Session {
    pub cursor: usize,
    pub output: String,
    pub seed: u64,
}

pub open spec fn state_of(k: Kitchen, s: Session) -> State {
    State {
        env: slots_view(k.ingredients@),
        bowls: stacks_view(k.bowls@),
        dishes: stacks_view(k.dishes@),
        cursor: s.cursor as nat,
        output: s.output@,
        seed: s.seed,
    }
}

/// Finds the next number in the input from line `cursor` on.
pub fn read_input(input: &Vec<String>, cursor: usize) -> (r: Option<(usize, usize)>)
    ensures
        match next_number(input@, cursor as nat) {
            Some((v, c)) => r matches Some((x, d)) && x == v && d == c,
            None => r is None,
        },
{
    let mut c = cursor;
    while c < input.len()
        invariant
            cursor <= c,
            next_number(input@, cursor as nat) == next_number(input@, c as nat),
        decreases input.len() - c,
    {
        match parse_line_number(input[c].as_str()) {
            Some(v) => {
                return Some((v, c + 1));
            },
            None => {},
        }
        c = c + 1;
    }
    None
}

/// Where the ingredient `name` is kept, and its value.
fn lookup(k: &Kitchen, name: &String) -> (r: Result<(usize, IngredientAmount), Fault>)
    ensures
        match env_value(slots_view(k.ingredients@), name@) {
            Ok(v) => r matches Ok((i, x)) && x == v && i == slot_index(
                slots_view(k.ingredients@),
                lower_of(name@),
            ),
            Err(f) => r == Err::<(usize, IngredientAmount), Fault>(f),
        },
{
    let key = lowercase(name.as_str());
    proof {
        lemma_slot_index(slots_view(k.ingredients@), key@);
    }
    match find_slot(&k.ingredients, &key) {
        None => Err(Fault::UnknownIngredient),
        Some(i) => match k.ingredients[i].value {
            Some(v) => Ok((i, v)),
            None => Err(Fault::Uninitialised),
        },
    }
}

/// Gives ingredient `i` the value `v`.
fn assign(k: &mut Kitchen, i: usize, v: Option<IngredientAmount>)
    requires
        i < old(k).ingredients@.len(),
    ensures
        slots_view(final(k).ingredients@) == slots_view(old(k).ingredients@).update(
            i as int,
            (slots_view(old(k).ingredients@)[i as int].0, slots_view(old(k).ingredients@)[i as int].1, v),
        ),
        final(k).bowls == old(k).bowls,
        final(k).dishes == old(k).dishes,
{
    k.ingredients[i].value = v;
    assert(slots_view(k.ingredients@) =~= slots_view(old(k).ingredients@).update(
        i as int,
        (slots_view(old(k).ingredients@)[i as int].0, slots_view(old(k).ingredients@)[i as int].1, v),
    ));
}

/// Prints one value: a wet one as a character, any other as a number.
fn write_value(out: &mut String, v: IngredientAmount)
    ensures
        final(out)@ == old(out)@ + shown(v),
{
    match v.kind {
        IngredientKind::Wet => {
            push_char(out, to_wet_char(v.amount));
        },
        _ => {
            push_decimal(out, v.amount);
        },
    }
}

/// Prints a dish from the top down.
fn write_emptied(out: &mut String, d: &Vec<IngredientAmount>)
    ensures
        final(out)@ == old(out)@ + emptied(d@),
{
    let mut i = d.len();
    assert(d@.subrange(0, i as int) == d@);
    while i > 0
        invariant
            i <= d@.len(),
            old(out)@ + emptied(d@) == out@ + emptied(d@.subrange(0, i as int)),
        decreases i,
    {
        let ghost w = d@.subrange(0, i as int);
        assert(w.drop_last() == d@.subrange(0, i - 1));
        assert(w.last() == d@[i - 1]);
        write_value(out, d[i - 1]);
        assert(old(out)@ + emptied(d@) =~= out@ + emptied(d@.subrange(0, i - 1)));
        i = i - 1;
    }
    assert(d@.subrange(0, 0) =~= Seq::<IngredientAmount>::empty());
    assert(out@ + emptied(Seq::<IngredientAmount>::empty()) =~= out@);
}

/// `Serves n`: prints the first `n` dishes, emptying them, then a line break.
fn serve_dishes(k: &mut Kitchen, s: &mut Session, n: usize)
    ensures
        state_of(*final(k), *final(s)) == serve(state_of(*old(k), *old(s)), n),
{
    let mut j: usize = 0;
    while j < n
        invariant
            j <= n,
            serve_from(state_of(*old(k), *old(s)), 0, n as nat) == serve_from(state_of(*k, *s), j as nat, n as nat),
        decreases n - j,
    {
        let d = if j + 1 <= 1 {
            0
        } else {
            j + 1
        };
        let ghost before = state_of(*k, *s);
        let st = get_stack(&k.dishes, d);
        write_emptied(&mut s.output, &st);
        set_stack(&mut k.dishes, d, Vec::new());
        assert(state_of(*k, *s) == State {
            dishes: crate::kitchen::with_stack(before.dishes, d, Seq::empty()),
            output: before.output + emptied(stack_of(before.dishes, d)),
            ..before
        });
        j = j + 1;
    }
    push_char(&mut s.output, '\n');
}

/// Moves the top of the stack down `m` places.
fn roll_stack(b: &mut Vec<IngredientAmount>, m: usize)
    requires
        old(b)@.len() > 0,
    ensures
        final(b)@ == roll(old(b)@, m),
{
    let top = b.pop().unwrap();
    let pos = if m >= b.len() {
        0
    } else {
        b.len() - m
    };
    b.insert(pos, top);
}

/// The next value of the shuffling generator.
fn next_seed_of(x: u64) -> (r: u64)
    ensures
        r == next_seed(x),
{
    let a = x ^ (x << 13u64);
    let b = a ^ (a >> 7u64);
    b ^ (b << 17u64)
}

/// Shuffles a stack with the generator; returns the generator's new seed.
fn shuffle_stack(b: &mut Vec<IngredientAmount>, seed0: u64) -> (r: u64)
    ensures
        (final(b)@, r) == shuffle(old(b)@, seed0, old(b)@.len()),
{
    let mut i = b.len();
    let mut seed = seed0;
    while i > 1
        invariant
            i <= b@.len(),
            b@.len() == old(b)@.len(),
            shuffle(old(b)@, seed0, old(b)@.len()) == shuffle(b@, seed, i as nat),
        decreases i,
    {
        let s2 = next_seed_of(seed);
        let j = (s2 % (i as u64)) as usize;
        let ghost before = b@;
        let t = b[i - 1];
        let u = b[j];
        b[i - 1] = u;
        b[j] = t;
        assert(b@ == swap(before, i - 1, j as int));
        seed = s2;
        i = i - 1;
    }
    seed
}

proof fn lemma_dry_total_grows(env: Seq<crate::kitchen::SlotView>, i: int, j: int)
    requires
        0 <= i <= j <= env.len(),
    ensures
        dry_total(env.subrange(0, i)) <= dry_total(env.subrange(0, j)),
    decreases j - i,
{
    if i < j {
        lemma_dry_total_grows(env, i, j - 1);
        assert(env.subrange(0, j).drop_last() == env.subrange(0, j - 1));
    }
}

/// The sum of the ingredients whose value is not wet, if it fits.
fn dry_sum(slots: &Vec<Slot>) -> (r: Option<usize>)
    ensures
        match r {
            Some(x) => x == dry_total(slots_view(slots@)),
            None => dry_total(slots_view(slots@)) > usize::MAX,
        },
{
    let ghost e = slots_view(slots@);
    let mut total: usize = 0;
    let mut i: usize = 0;
    while i < slots.len()
        invariant
            i <= slots@.len(),
            e == slots_view(slots@),
            total == dry_total(e.subrange(0, i as int)),
        decreases slots.len() - i,
    {
        assert(e.subrange(0, i + 1).drop_last() == e.subrange(0, i as int));
        assert(e.subrange(0, i + 1).last() == e[i as int]);
        match slots[i].value {
            Some(v) => {
                if v.kind != IngredientKind::Wet {
                    match total.checked_add(v.amount) {
                        Some(t) => {
                            total = t;
                        },
                        None => {
                            proof {
                                lemma_dry_total_grows(e, i + 1, e.len() as int);
                                assert(e.subrange(0, e.len() as int) == e);
                            }
                            return None;
                        },
                    }
                }
            },
            None => {},
        }
        i = i + 1;
    }
    assert(e.subrange(0, e.len() as int) == e);
    Some(total)
}

/// Every value of the stack made wet.
fn liquefied(b: &Vec<IngredientAmount>) -> (r: Vec<IngredientAmount>)
    ensures
        r@ == b@.map_values(
            |v: IngredientAmount| IngredientAmount { amount: v.amount, kind: IngredientKind::Wet },
        ),
{
    let mut r: Vec<IngredientAmount> = Vec::new();
    let mut i: usize = 0;
    while i < b.len()
        invariant
            i <= b@.len(),
            r@ == b@.subrange(0, i as int).map_values(
                |v: IngredientAmount| IngredientAmount { amount: v.amount, kind: IngredientKind::Wet },
            ),
        decreases b.len() - i,
    {
        r.push(IngredientAmount { amount: b[i].amount, kind: IngredientKind::Wet });
        assert(r@ =~= b@.subrange(0, i + 1).map_values(
            |v: IngredientAmount| IngredientAmount { amount: v.amount, kind: IngredientKind::Wet },
        ));
        i = i + 1;
    }
    assert(b@.subrange(0, b@.len() as int) == b@);
    r
}

/// `a` with the values of `b` on top, bottom first.
fn stacked(a: Vec<IngredientAmount>, b: &Vec<IngredientAmount>) -> (r: Vec<IngredientAmount>)
    ensures
        r@ == a@ + b@,
{
    let mut r = a;
    let mut i: usize = 0;
    while i < b.len()
        invariant
            i <= b@.len(),
            r@ == a@ + b@.subrange(0, i as int),
        decreases b.len() - i,
    {
        r.push(b[i]);
        assert(r@ =~= a@ + b@.subrange(0, i + 1));
        i = i + 1;
    }
    assert(b@.subrange(0, b@.len() as int) == b@);
    r
}

fn fault(f: Fault, span: Span) -> (r: Result<Signal, RuntimeError>)
    ensures
        r == Err::<Signal, RuntimeError>(RuntimeError { fault: f, span }),
{
    Err(RuntimeError { fault: f, span })
}

/// The top of the bowl combined with the ingredient's value.
fn combine(op: ArithOp, a: usize, b: usize) -> (r: Result<usize, Fault>)
    ensures
        r == arith(op, a, b),
{
    match op {
        ArithOp::Add => match a.checked_add(b) {
            Some(x) => Ok(x),
            None => Err(Fault::Overflow),
        },
        ArithOp::Sub => if a < b {
            Err(Fault::Overflow)
        } else {
            Ok(a - b)
        },
        ArithOp::Mul => match a.checked_mul(b) {
            Some(x) => Ok(x),
            None => Err(Fault::Overflow),
        },
        ArithOp::Div => if b == 0 {
            Err(Fault::DivisionByZero)
        } else {
            Ok(a / b)
        },
    }
}

/// Add, Remove, Combine or Divide on bowl `n` with ingredient `name`.
fn binary_op(k: &mut Kitchen, s: &Session, name: &String, n: usize, op: ArithOp, span: Span) -> (r: Result<Signal, RuntimeError>)
    ensures
        (state_of(*final(k), *s), r) == crate::semantics::arith_step(state_of(*old(k), *s), op, name@, n, span),
{
    match lookup(k, name) {
        Err(f) => fault(f, span),
        Ok((_, v)) => {
            let mut b = get_stack(&k.bowls, n);
            if b.len() == 0 {
                return fault(Fault::EmptyBowl, span);
            }
            let top = b[b.len() - 1];
            match combine(op, top.amount, v.amount) {
                Err(f) => fault(f, span),
                Ok(x) => {
                    b.push(IngredientAmount { amount: x, kind: v.kind });
                    set_stack(&mut k.bowls, n, b);
                    Ok(Signal::Normal)
                },
            }
        },
    }
}

/// Runs an instruction that neither loops nor calls.
fn eval_step(input: &Vec<String>, k: &mut Kitchen, s: &mut Session, i: &Instruction, span: Span) -> (r: Result<Signal, RuntimeError>)
    ensures
        (state_of(*final(k), *final(s)), r) == step(input@, state_of(*old(k), *old(s)), *i, span),
{
    match i {
        Instruction::Take(name) => {
            let key = lowercase(name.as_str());
            proof {
                lemma_slot_index(slots_view(k.ingredients@), key@);
            }
            match find_slot(&k.ingredients, &key) {
                None => fault(Fault::UnknownIngredient, span),
                Some(j) => match read_input(input, s.cursor) {
                    None => {
                        s.cursor = input.len();
                        fault(Fault::EndOfInput, span)
                    },
                    Some((v, c)) => {
                        let kind = k.ingredients[j].kind;
                        assign(k, j, Some(IngredientAmount { amount: v, kind }));
                        s.cursor = c;
                        Ok(Signal::Normal)
                    },
                },
            }
        },
        Instruction::Put(name, n) => match lookup(k, name) {
            Err(f) => fault(f, span),
            Ok((_, v)) => {
                let mut b = get_stack(&k.bowls, *n);
                b.push(v);
                set_stack(&mut k.bowls, *n, b);
                Ok(Signal::Normal)
            },
        },
        Instruction::Fold(name, n) => {
            let key = lowercase(name.as_str());
            proof {
                lemma_slot_index(slots_view(k.ingredients@), key@);
            }
            match find_slot(&k.ingredients, &key) {
                None => fault(Fault::UnknownIngredient, span),
                Some(j) => {
                    let mut b = get_stack(&k.bowls, *n);
                    if b.len() == 0 {
                        return fault(Fault::EmptyBowl, span);
                    }
                    let top = b.pop().unwrap();
                    set_stack(&mut k.bowls, *n, b);
                    assign(k, j, Some(top));
                    Ok(Signal::Normal)
                },
            }
        },
        Instruction::Add(name, n) => binary_op(k, s, name, *n, ArithOp::Add, span),
        Instruction::Remove(name, n) => binary_op(k, s, name, *n, ArithOp::Sub, span),
        Instruction::Combine(name, n) => binary_op(k, s, name, *n, ArithOp::Mul, span),
        Instruction::Divide(name, n) => binary_op(k, s, name, *n, ArithOp::Div, span),
        Instruction::AddDryIngredients(n) => match dry_sum(&k.ingredients) {
            None => fault(Fault::Overflow, span),
            Some(t) => {
                let mut b: Vec<IngredientAmount> = Vec::new();
                b.push(IngredientAmount { amount: t, kind: IngredientKind::Dry });
                set_stack(&mut k.bowls, *n, b);
                Ok(Signal::Normal)
            },
        },
        Instruction::Liquefy(name) => match lookup(k, name) {
            Err(f) => fault(f, span),
            Ok((j, v)) => {
                proof {
                    lemma_slot_index(slots_view(k.ingredients@), lower_of(name@));
                }
                assign(k, j, Some(IngredientAmount { amount: v.amount, kind: IngredientKind::Wet }));
                Ok(Signal::Normal)
            },
        },
        Instruction::LiquefyContents(n) => {
            let b = get_stack(&k.bowls, *n);
            let w = liquefied(&b);
            set_stack(&mut k.bowls, *n, w);
            Ok(Signal::Normal)
        },
        Instruction::Stir(n, m) => {
            let mut b = get_stack(&k.bowls, *n);
            if b.len() == 0 {
                return fault(Fault::EmptyBowl, span);
            }
            roll_stack(&mut b, *m);
            set_stack(&mut k.bowls, *n, b);
            Ok(Signal::Normal)
        },
        Instruction::StirIngredient(name, n) => match lookup(k, name) {
            Err(f) => fault(f, span),
            Ok((_, v)) => {
                let mut b = get_stack(&k.bowls, *n);
                if b.len() == 0 {
                    return fault(Fault::EmptyBowl, span);
                }
                roll_stack(&mut b, v.amount);
                set_stack(&mut k.bowls, *n, b);
                Ok(Signal::Normal)
            },
        },
        Instruction::Mix(n) => {
            let mut b = get_stack(&k.bowls, *n);
            let seed = shuffle_stack(&mut b, s.seed);
            set_stack(&mut k.bowls, *n, b);
            s.seed = seed;
            Ok(Signal::Normal)
        },
        Instruction::Clean(n) => {
            set_stack(&mut k.bowls, *n, Vec::new());
            Ok(Signal::Normal)
        },
        Instruction::Pour(n, d) => {
            let b = get_stack(&k.bowls, *n);
            let old_dish = get_stack(&k.dishes, *d);
            let poured = stacked(old_dish, &b);
            set_stack(&mut k.dishes, *d, poured);
            Ok(Signal::Normal)
        },
        Instruction::SetAside => Ok(Signal::Break(span)),
        Instruction::Refrigerate(h) => {
            match h {
                Some(h) => {
                    serve_dishes(k, s, *h);
                },
                None => {},
            }
            Ok(Signal::Stop)
        },
        Instruction::Serves(n) => {
            serve_dishes(k, s, *n);
            Ok(Signal::Normal)
        },
        Instruction::VerbLoop(_) => Ok(Signal::Normal),
        Instruction::ServeWith(_) => Ok(Signal::Normal),
    }
}

/// The ingredients of a recipe as it starts: its declarations in order, a
/// later one of the same name replacing an earlier one.
fn initial_slots(ings: &Vec<Spanned<Ingredient>>) -> (r: Vec<Slot>)
    ensures
        slots_view(r@) == initial_env(ings@),
{
    let mut slots: Vec<Slot> = Vec::new();
    let mut i: usize = 0;
    while i < ings.len()
        invariant
            i <= ings@.len(),
            slots_view(slots@) == initial_env(ings@.subrange(0, i as int)),
        decreases ings.len() - i,
    {
        let ghost prefix = ings@.subrange(0, i + 1);
        assert(prefix.drop_last() == ings@.subrange(0, i as int));
        assert(prefix.last() == ings@[i as int]);
        let d = &ings[i].0;
        let key = lowercase(d.name.as_str());
        let value = match d.initial_value {
            Some(x) => Some(IngredientAmount { amount: x, kind: d.kind }),
            None => None,
        };
        let slot = Slot { name: key, kind: d.kind, value };
        proof {
            lemma_slot_index(slots_view(slots@), key@);
        }
        let ghost before = slots_view(slots@);
        match find_slot(&slots, &slot.name) {
            Some(j) => {
                slots.set(j, slot);
                assert(slots_view(slots@) =~= before.update(j as int, (key@, d.kind, value)));
            },
            None => {
                slots.push(slot);
                assert(slots_view(slots@) =~= before.push((key@, d.kind, value)));
            },
        }
        i = i + 1;
    }
    assert(ings@.subrange(0, ings@.len() as int) == ings@);
    slots
}

/// Where the auxiliary recipe under `key` is kept.
fn find_recipe(aux: &Vec<(String, ChefRecipe<Instruction, Ingredient>)>, key: &String) -> (r: Option<usize>)
    ensures
        match r {
            Some(i) => recipe_index(aux@, key@) == i && i < aux@.len(),
            None => recipe_index(aux@, key@) == -1,
        },
{
    let mut i = aux.len();
    assert(aux@.subrange(0, i as int) == aux@);
    while i > 0
        invariant
            i <= aux@.len(),
            recipe_index(aux@, key@) == recipe_index(aux@.subrange(0, i as int), key@),
        decreases i,
    {
        let ghost w = aux@.subrange(0, i as int);
        assert(w.last() == aux@[i - 1]);
        if aux[i - 1].0 == *key {
            return Some(i - 1);
        }
        assert(w.drop_last() == aux@.subrange(0, i - 1));
        i = i - 1;
    }
    None
}

/// Runs a recipe in a new call frame: its declared ingredients, and the
/// bowls and dishes given. A `Set aside` that leaves the method is a
/// run-time error; the main recipe (`main`) prints its `Serves` line when it
/// ends normally.
pub fn eval_recipe(
    p: &ChefProgram,
    input: &Vec<String>,
    recipe: &ChefRecipe<Instruction, Ingredient>,
    main: bool,
    bowls: Stacks,
    dishes: Stacks,
    s: &mut Session,
    fuel: u64,
) -> (r: (Kitchen, Result<(), RuntimeError>))
    ensures
        (state_of(r.0, *final(s)), r.1) == run_recipe(
            *p,
            input@,
            State {
                env: initial_env(recipe.ingredients@),
                bowls: stacks_view(bowls@),
                dishes: stacks_view(dishes@),
                cursor: old(s).cursor as nat,
                output: old(s).output@,
                seed: old(s).seed,
            },
            *recipe,
            main,
            fuel as nat,
        ),
    decreases fuel, 3int,
{
    let mut k = Kitchen { ingredients: initial_slots(&recipe.ingredients), bowls, dishes };
    let r = eval_instructions(p, input, &mut k, s, &recipe.instructions, fuel);
    let result = match r {
        Err(e) => Err(e),
        Ok(Signal::Break(sp)) => Err(RuntimeError { fault: Fault::SetAsideOutsideLoop, span: sp }),
        Ok(Signal::Stop) => Ok(()),
        Ok(Signal::Normal) => {
            if main {
                match &recipe.serves {
                    Some(n) => {
                        serve_dishes(&mut k, s, n.0);
                    },
                    None => {},
                }
            }
            Ok(())
        },
    };
    (k, result)
}

/// Runs a list of instructions in order, until one does not end normally.
pub fn eval_instructions(
    p: &ChefProgram,
    input: &Vec<String>,
    k: &mut Kitchen,
    s: &mut Session,
    t: &Vec<Spanned<Instruction>>,
    fuel: u64,
) -> (r: Result<Signal, RuntimeError>)
    ensures
        (state_of(*final(k), *final(s)), r) == run_block(
            *p,
            input@,
            state_of(*old(k), *old(s)),
            t@,
            0,
            fuel as nat,
        ),
    decreases fuel, 2int,
{
    let mut i: usize = 0;
    while i < t.len()
        invariant
            i <= t@.len(),
            run_block(*p, input@, state_of(*old(k), *old(s)), t@, 0, fuel as nat) == run_block(
                *p,
                input@,
                state_of(*k, *s),
                t@,
                i as int,
                fuel as nat,
            ),
        decreases t.len() - i,
    {
        let r = eval_instruction(p, input, k, s, &t[i], fuel);
        match r {
            Ok(Signal::Normal) => {},
            _ => {
                return r;
            },
        }
        i = i + 1;
    }
    Ok(Signal::Normal)
}

/// Runs one instruction: a loop, a call of an auxiliary recipe, or a step.
pub fn eval_instruction(
    p: &ChefProgram,
    input: &Vec<String>,
    k: &mut Kitchen,
    s: &mut Session,
    x: &Spanned<Instruction>,
    fuel: u64,
) -> (r: Result<Signal, RuntimeError>)
    ensures
        (state_of(*final(k), *final(s)), r) == run_instruction(
            *p,
            input@,
            state_of(*old(k), *old(s)),
            *x,
            fuel as nat,
        ),
    decreases fuel, 1int,
{
    match &x.0 {
        Instruction::VerbLoop(l) => eval_loop(p, input, k, s, l, x.1, fuel),
        Instruction::ServeWith(name) => {
            let key = lowercase(name.as_str());
            match find_recipe(&p.auxilary, &key) {
                None => fault(Fault::UnknownRecipe, x.1),
                Some(j) => {
                    if fuel == 0 {
                        return fault(Fault::OutOfFuel, x.1);
                    }
                    let callee = &p.auxilary[j].1;
                    let (inner, r) = eval_recipe(
                        p,
                        input,
                        callee,
                        false,
                        copy_stacks(&k.bowls),
                        copy_stacks(&k.dishes),
                        s,
                        fuel - 1,
                    );
                    match r {
                        Err(e) => Err(e),
                        Ok(()) => {
                            let mine = get_stack(&k.bowls, 0);
                            let theirs = get_stack(&inner.bowls, 0);
                            set_stack(&mut k.bowls, 0, stacked(mine, &theirs));
                            Ok(Signal::Normal)
                        },
                    }
                },
            }
        },
        other => eval_step(input, k, s, other, x.1),
    }
}

/// Runs a loop: while the guard is not zero, the body, then the guard
/// lowered by one; `Set aside` leaves at once.
pub fn eval_loop(
    p: &ChefProgram,
    input: &Vec<String>,
    k: &mut Kitchen,
    s: &mut Session,
    l: &VerbLoop,
    span: Span,
    fuel: u64,
) -> (r: Result<Signal, RuntimeError>)
    ensures
        (state_of(*final(k), *final(s)), r) == run_loop(
            *p,
            input@,
            state_of(*old(k), *old(s)),
            *l,
            span,
            fuel as nat,
        ),
    decreases fuel, 0int,
{
    match lookup(k, &l.ingredient) {
        Err(f) => fault(f, span),
        Ok((_, v)) => {
            if v.amount == 0 {
                return Ok(Signal::Normal);
            }
            if fuel == 0 {
                return fault(Fault::OutOfFuel, span);
            }
            let r = eval_instructions(p, input, k, s, &l.instructions, fuel - 1);
            match r {
                Err(e) => Err(e),
                Ok(Signal::Break(_)) => Ok(Signal::Normal),
                Ok(Signal::Stop) => Ok(Signal::Stop),
                Ok(Signal::Normal) => match lookup(k, &l.ingredient) {
                    Err(f) => fault(f, span),
                    Ok((j, v2)) => {
                        proof {
                            lemma_slot_index(slots_view(k.ingredients@), lower_of(l.ingredient@));
                        }
                        let a = if v2.amount == 0 {
                            0
                        } else {
                            v2.amount - 1
                        };
                        assign(k, j, Some(IngredientAmount { amount: a, kind: v2.kind }));
                        eval_loop(p, input, k, s, l, span, fuel - 1)
                    },
                },
            }
        },
    }
}

/// What a run printed, and whether it failed.
pub struct RunOutcome {
    pub output: String,
    pub result: Result<(), RuntimeError>,
}

/// Runs a program from its main recipe, with empty bowls and dishes.
///
/// `input` holds the lines that `Take` reads, `seed` starts the generator
/// that `Mix` shuffles with, and `fuel` bounds how many loop rounds and
/// recipe calls may follow one another or nest, so that every run ends.
/// The output and the result are exactly those of `run_program`.
pub fn run(program: &ChefProgram, input: &Vec<String>, seed: u64, fuel: u64) -> (r: RunOutcome)
    ensures
        (r.output@, r.result) == run_program(*program, input@, seed, fuel as nat),
{
    let mut s = Session { cursor: 0, output: String::new(), seed };
    let bowls: Stacks = Vec::new();
    let dishes: Stacks = Vec::new();
    assert(stacks_view(bowls@) =~= Seq::empty());
    assert(stacks_view(dishes@) =~= Seq::empty());
    let (_, result) = eval_recipe(program, input, &program.main, true, bowls, dishes, &mut s, fuel);
    RunOutcome { output: s.output, result }
}

} // verus!
