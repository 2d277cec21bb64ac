//! The state a recipe runs in: its ingredients, mixing bowls and baking dishes.
use vstd::prelude::*;

use crate::parser::ast::IngredientKind;

verus! {

/// A value as it sits in an ingredient, a bowl or a dish: a number and the
/// kind it had when it got there.
#[derive(Clone, Copy, Debug, PartialEq, Eq, Structural)]
pub struct IngredientAmount {
    pub amount: usize,
    pub kind: IngredientKind,
}

impl IngredientAmount {
    pub fn new(amount: usize, kind: IngredientKind) -> (r: IngredientAmount)
        ensures
            r.amount == amount,
            r.kind == kind,
    {
        IngredientAmount { amount, kind }
    }

    pub fn set_amount(&mut self, amount: usize)
        ensures
            final(self).amount == amount,
            final(self).kind == old(self).kind,
    {
        self.amount = amount;
    }

    pub fn amount(&self) -> (r: usize)
        ensures
            r == self.amount,
    {
        self.amount
    }
}

/// A sparse set of numbered stacks, bottom first; a number not present
/// stands for an empty stack.
pub type Stacks = Vec<(usize, Vec<IngredientAmount>)>;

/// The abstract form of [`Stacks`].
pub type StacksView = Seq<(usize, Seq<IngredientAmount>)>;

pub open spec fn stacks_view(u: Seq<(usize, Vec<IngredientAmount>)>) -> StacksView {
    Seq::new(u.len(), |i: int| (u[i].0, u[i].1@))
}

/// Where stack `n` is kept, or -1.
pub open spec fn stack_index(u: StacksView, n: usize) -> int
    decreases u.len(),
{
    if u.len() == 0 {
        -1
    } else if u.last().0 == n {
        u.len() - 1
    } else {
        stack_index(u.drop_last(), n)
    }
}

/// The contents of stack `n`.
pub open spec fn stack_of(u: StacksView, n: usize) -> Seq<IngredientAmount> {
    let i = stack_index(u, n);
    if i >= 0 {
        u[i].1
    } else {
        Seq::empty()
    }
}

/// The stacks with stack `n` holding `s`.
pub open spec fn with_stack(u: StacksView, n: usize, s: Seq<IngredientAmount>) -> StacksView {
    let i = stack_index(u, n);
    if i >= 0 {
        u.update(i, (n, s))
    } else {
        u.push((n, s))
    }
}

pub proof fn lemma_stack_index(u: StacksView, n: usize)
    ensures
        -1 <= stack_index(u, n) < u.len(),
        stack_index(u, n) >= 0 ==> u[stack_index(u, n)].0 == n,
    decreases u.len(),
{
    if u.len() > 0 && u.last().0 != n {
        lemma_stack_index(u.drop_last(), n);
    }
}

/// Changing an entry without changing its number keeps every stack where it was.
proof fn lemma_index_same_keys(u: StacksView, v: StacksView, m: usize)
    requires
        u.len() == v.len(),
        forall|i: int| 0 <= i < u.len() ==> u[i].0 == v[i].0,
    ensures
        stack_index(u, m) == stack_index(v, m),
    decreases u.len(),
{
    if u.len() > 0 {
        lemma_index_same_keys(u.drop_last(), v.drop_last(), m);
    }
}

/// Setting stack `n` changes stack `n` only.
pub proof fn lemma_with_stack(u: StacksView, n: usize, s: Seq<IngredientAmount>, m: usize)
    ensures
        stack_of(with_stack(u, n, s), m) == if m == n {
            s
        } else {
            stack_of(u, m)
        },
{
    lemma_stack_index(u, n);
    let i = stack_index(u, n);
    lemma_stack_index(u, m);
    if i >= 0 {
        let v = u.update(i, (n, s));
        lemma_index_same_keys(u, v, m);
        lemma_index_same_keys(u, v, n);
        assert(with_stack(u, n, s) == v);
        if m != n {
            let j = stack_index(u, m);
            if j >= 0 {
                assert(j != i);
                assert(v[j] == u[j]);
            }
        }
    } else {
        let v = u.push((n, s));
        assert(v.drop_last() == u);
        assert(with_stack(u, n, s) == v);
        assert(stack_index(v, n) == u.len());
        if m != n {
            assert(stack_index(v, m) == stack_index(u, m));
            let j = stack_index(u, m);
            if j >= 0 {
                assert(v[j] == u[j]);
            }
        }
    }
}

/// A copy of a stack.
pub fn copy_stack(v: &Vec<IngredientAmount>) -> (r: Vec<IngredientAmount>)
    ensures
        r@ == v@,
{
    let mut r: Vec<IngredientAmount> = Vec::new();
    let mut i: usize = 0;
    while i < v.len()
        invariant
            i <= v@.len(),
            r@ == v@.subrange(0, i as int),
        decreases v.len() - i,
    {
        r.push(v[i]);
        i = i + 1;
    }
    r
}

/// A copy of a set of stacks.
pub fn copy_stacks(u: &Stacks) -> (r: Stacks)
    ensures
        stacks_view(r@) == stacks_view(u@),
{
    let mut r: Stacks = Vec::new();
    let mut i: usize = 0;
    while i < u.len()
        invariant
            i <= u@.len(),
            stacks_view(r@) == stacks_view(u@.subrange(0, i as int)),
        decreases u.len() - i,
    {
        let ghost before = r@;
        assert(stacks_view(before).len() == before.len());
        assert(stacks_view(u@.subrange(0, i as int)).len() == i);
        let c = copy_stack(&u[i].1);
        r.push((u[i].0, c));
        assert forall|j: int| 0 <= j < i implies stacks_view(r@)[j] == stacks_view(
            u@.subrange(0, i + 1),
        )[j] by {
            assert(r@[j] == before[j]);
            assert(stacks_view(before)[j] == stacks_view(u@.subrange(0, i as int))[j]);
        }
        assert(stacks_view(r@) =~= stacks_view(u@.subrange(0, i + 1)));
        i = i + 1;
    }
    assert(u@.subrange(0, u@.len() as int) == u@);
    r
}

/// Where stack `n` is kept.
fn find_stack(u: &Stacks, n: usize) -> (r: Option<usize>)
    ensures
        match r {
            Some(i) => stack_index(stacks_view(u@), n) == i,
            None => stack_index(stacks_view(u@), n) == -1,
        },
{
    let mut i = u.len();
    assert(u@.subrange(0, i as int) == u@);
    while i > 0
        invariant
            i <= u@.len(),
            stack_index(stacks_view(u@), n) == stack_index(stacks_view(u@.subrange(0, i as int)), n),
        decreases i,
    {
        let ghost w = stacks_view(u@.subrange(0, i as int));
        assert(w.last().0 == u@[i - 1].0);
        if u[i - 1].0 == n {
            return Some(i - 1);
        }
        assert(w.drop_last() =~= stacks_view(u@.subrange(0, i - 1)));
        i = i - 1;
    }
    None
}

/// A copy of stack `n`.
pub fn get_stack(u: &Stacks, n: usize) -> (r: Vec<IngredientAmount>)
    ensures
        r@ == stack_of(stacks_view(u@), n),
{
    proof {
        lemma_stack_index(stacks_view(u@), n);
    }
    match find_stack(u, n) {
        Some(i) => copy_stack(&u[i].1),
        None => Vec::new(),
    }
}

/// Makes stack `n` hold `s`.
pub fn set_stack(u: &mut Stacks, n: usize, s: Vec<IngredientAmount>)
    ensures
        stacks_view(final(u)@) == with_stack(stacks_view(old(u)@), n, s@),
{
    proof {
        lemma_stack_index(stacks_view(u@), n);
    }
    match find_stack(u, n) {
        Some(i) => {
            u[i] = (n, s);
            assert(stacks_view(u@) =~= with_stack(stacks_view(old(u)@), n, s@));
        },
        None => {
            u.push((n, s));
            assert(stacks_view(u@) =~= with_stack(stacks_view(old(u)@), n, s@));
        },
    }
}

/// An ingredient of the running recipe: its lower-cased name, its declared
/// kind, and its value if it has one.
pub struct Slot {
    pub name: String,
    pub kind: IngredientKind,
    pub value: Option<IngredientAmount>,
}

/// The abstract form of a slot.
pub type SlotView = (Seq<char>, IngredientKind, Option<IngredientAmount>);

pub open spec fn slots_view(e: Seq<Slot>) -> Seq<SlotView> {
    Seq::new(e.len(), |i: int| (e[i].name@, e[i].kind, e[i].value))
}

/// Where the ingredient named `key` is kept, or -1.
pub open spec fn slot_index(e: Seq<SlotView>, key: Seq<char>) -> int
    decreases e.len(),
{
    if e.len() == 0 {
        -1
    } else if e.last().0 == key {
        e.len() - 1
    } else {
        slot_index(e.drop_last(), key)
    }
}

pub proof fn lemma_slot_index(e: Seq<SlotView>, key: Seq<char>)
    ensures
        -1 <= slot_index(e, key) < e.len(),
        slot_index(e, key) >= 0 ==> e[slot_index(e, key)].0 == key,
    decreases e.len(),
{
    if e.len() > 0 && e.last().0 != key {
        lemma_slot_index(e.drop_last(), key);
    }
}

/// Where the ingredient named `key` is kept.
pub fn find_slot(e: &Vec<Slot>, key: &String) -> (r: Option<usize>)
    ensures
        match r {
            Some(i) => slot_index(slots_view(e@), key@) == i,
            None => slot_index(slots_view(e@), key@) == -1,
        },
{
    let mut i = e.len();
    assert(e@.subrange(0, i as int) == e@);
    while i > 0
        invariant
            i <= e@.len(),
            slot_index(slots_view(e@), key@) == slot_index(slots_view(e@.subrange(0, i as int)), key@),
        decreases i,
    {
        let ghost w = slots_view(e@.subrange(0, i as int));
        assert(w.last().0 == e@[i - 1].name@);
        if e[i - 1].name == *key {
            return Some(i - 1);
        }
        assert(w.drop_last() =~= slots_view(e@.subrange(0, i - 1)));
        i = i - 1;
    }
    None
}

} // verus!
