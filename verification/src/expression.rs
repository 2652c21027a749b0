//! The expression tree that the parser builds and the evaluator reduces.

use vstd::prelude::*;

verus! {

/// A native function, by name.
#[derive(Clone, Copy, Debug, PartialEq, Eq, Structural)]
pub enum Builtin {
    /// `+`: the sum of its arguments.
    Add,
    /// `-`: its first argument less the sum of the others.
    Subtract,
}

/// An expression: what the parser yields and what evaluation returns.
///
/// A number is an IEEE 754 binary64 value, held as its 64 bits.
#[derive(Debug, PartialEq)]
pub enum LispExpression {
    Symbol(String),
    Number(u64),
    List(Vec<LispExpression>),
    Function(Builtin),
}

/// The mathematical value of an expression.
pub enum Form {
    Symbol(Seq<char>),
    Number(u64),
    List(Seq<Form>),
    Function(Builtin),
}

/// The value of an expression.
pub open spec fn form_of(e: LispExpression) -> Form
    decreases e, 0nat,
{
    match e {
        LispExpression::Symbol(name) => Form::Symbol(name@),
        LispExpression::Number(bits) => Form::Number(bits),
        LispExpression::List(items) => Form::List(forms_upto(items, items@.len())),
        LispExpression::Function(f) => Form::Function(f),
    }
}

/// The values of the first `n` of `items`.
pub open spec fn forms_upto(items: Vec<LispExpression>, n: nat) -> Seq<Form>
    decreases items, n,
{
    if 0 < n <= items@.len() {
        proof {
            vstd::std_specs::vec::axiom_vec_index_decreases(items, n - 1);
        }
        forms_upto(items, (n - 1) as nat).push(form_of(items@[n - 1]))
    } else {
        Seq::empty()
    }
}

impl View for LispExpression {
    type V = Form;

    open spec fn view(&self) -> Form {
        form_of(*self)
    }
}

/// The values of a sequence of expressions.
pub open spec fn forms(items: Seq<LispExpression>) -> Seq<Form> {
    Seq::new(items.len(), |i: int| items[i]@)
}

/// The first `n` values of a list are those of its first `n` elements.
pub proof fn lemma_forms_upto(items: Vec<LispExpression>, n: nat)
    requires
        n <= items@.len(),
    ensures
        forms_upto(items, n) == forms(items@).take(n as int),
    decreases n,
{
    if n > 0 {
        lemma_forms_upto(items, (n - 1) as nat);
        assert(forms(items@).take(n as int) =~= forms(items@).take(n - 1).push(items@[n - 1]@));
    } else {
        assert(forms(items@).take(0) =~= Seq::<Form>::empty());
    }
}

/// The value of a list is the list of its elements' values.
pub proof fn lemma_list_view(items: Vec<LispExpression>)
    ensures
        LispExpression::List(items)@ == Form::List(forms(items@)),
{
    lemma_forms_upto(items, items@.len());
    assert(forms(items@).take(items@.len() as int) =~= forms(items@));
}

impl Clone for LispExpression {
    fn clone(&self) -> (copy: Self)
        ensures
            copy@ == self@,
        decreases self,
    {
        match self {
            LispExpression::Symbol(name) => LispExpression::Symbol(name.clone()),
            LispExpression::Number(bits) => LispExpression::Number(*bits),
            LispExpression::List(items) => {
                let mut copies: Vec<LispExpression> = Vec::new();
                let mut i: usize = 0;
                while i < items.len()
                    invariant
                        *self == LispExpression::List(*items),
                        i <= items.len(),
                        copies.len() == i,
                        forall|k: int| 0 <= k < i ==> copies[k]@ == items[k]@,
                    decreases items.len() - i,
                {
                    proof {
                        assert(self->List_0 == *items);
                        vstd::std_specs::vec::axiom_vec_index_decreases(*items, i as int);
                        assert(decreases_to!(*items => items[i as int]));
                    }
                    let item = items[i].clone();
                    copies.push(item);
                    i += 1;
                }
                proof {
                    lemma_list_view(copies);
                    lemma_list_view(*items);
                    assert(forms(copies@) =~= forms(items@));
                }
                LispExpression::List(copies)
            },
            LispExpression::Function(f) => LispExpression::Function(*f),
        }
    }
}

} // verus!
