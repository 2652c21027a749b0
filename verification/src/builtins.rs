//! The native functions.

use vstd::prelude::*;
use crate::error::{Failure, LispError};
use crate::expression::{forms, Builtin, Form, LispExpression};
use crate::numbers::{combine, is_operation, operation_of, total};

verus! {

/// Every argument is a number.
pub open spec fn all_numbers(arguments: Seq<Form>) -> bool {
    forall|i: int| 0 <= i < arguments.len() ==> (#[trigger] arguments[i]) is Number
}

/// The numbers that the arguments hold.
pub open spec fn numbers_of(arguments: Seq<Form>) -> Seq<u64> {
    Seq::new(arguments.len(), |i: int| arguments[i]->Number_0)
}

/// The number that a sum starts from: positive zero, whose pattern is all
/// zero bits.
pub open spec fn zero() -> u64 {
    0
}

/// The sum of `xs`: zero, with each of them added in turn.
pub open spec fn sum(plus: spec_fn(u64, u64) -> u64, xs: Seq<u64>) -> u64 {
    total(plus, zero(), xs)
}

/// What a native function returns for evaluated arguments.
pub open spec fn apply(
    f: Builtin,
    arguments: Seq<Form>,
    plus: spec_fn(u64, u64) -> u64,
    minus: spec_fn(u64, u64) -> u64,
) -> Result<Form, Failure> {
    if !all_numbers(arguments) {
        Err(Failure::NotANumber)
    } else {
        let xs = numbers_of(arguments);
        match f {
            Builtin::Add => Ok(Form::Number(sum(plus, xs))),
            Builtin::Subtract => if xs.len() == 0 {
                Err(Failure::NoOperand)
            } else {
                Ok(Form::Number(minus(xs[0], sum(plus, xs.drop_first()))))
            },
        }
    }
}

/// The value of an evaluation's result.
pub open spec fn valued(r: Result<LispExpression, LispError>) -> Result<Form, Failure> {
    match r {
        Ok(expression) => Ok(expression@),
        Err(e) => Err(e@),
    }
}

/// The number that an expression holds, if it is one.
pub fn parse_single_float(expression: &LispExpression) -> (r: Result<u64, LispError>)
    ensures
        match r {
            Ok(bits) => expression@ == Form::Number(bits),
            Err(e) => !(expression@ is Number) && e@ == Failure::NotANumber,
        },
{
    match expression {
        LispExpression::Number(bits) => Ok(*bits),
        _ => Err(LispError::NotANumber),
    }
}

/// The numbers that the arguments hold, if all of them are numbers.
pub fn parse_list_of_floats(arguments: &[LispExpression]) -> (r: Result<Vec<u64>, LispError>)
    ensures
        match r {
            Ok(xs) => all_numbers(forms(arguments@)) && xs@ == numbers_of(forms(arguments@)),
            Err(e) => !all_numbers(forms(arguments@)) && e@ == Failure::NotANumber,
        },
{
    let mut xs: Vec<u64> = Vec::new();
    let mut i: usize = 0;
    while i < arguments.len()
        invariant
            i <= arguments.len(),
            xs.len() == i,
            forall|k: int| 0 <= k < i ==> forms(arguments@)[k] == Form::Number(#[trigger] xs[k]),
        decreases arguments.len() - i,
    {
        match parse_single_float(&arguments[i]) {
            Ok(bits) => {
                xs.push(bits);
            },
            Err(e) => {
                assert(!(forms(arguments@)[i as int] is Number));
                return Err(e);
            },
        }
        i += 1;
    }
    assert forall|k: int| 0 <= k < arguments@.len() implies (#[trigger] forms(
        arguments@,
    )[k]) is Number by {
        assert(forms(arguments@)[k] == Form::Number(xs[k]));
    }
    assert(xs@ =~= numbers_of(forms(arguments@)));
    Ok(xs)
}

/// The sum of the numbers from index `from` on.
pub fn sum_from<P: Fn(u64, u64) -> u64>(xs: &Vec<u64>, from: usize, plus: &P) -> (r: u64)
    requires
        is_operation(plus),
        from <= xs.len(),
    ensures
        r == sum(operation_of(plus), xs@.skip(from as int)),
{
    let mut acc: u64 = 0;
    let mut i: usize = from;
    while i < xs.len()
        invariant
            is_operation(plus),
            from <= i <= xs.len(),
            acc == sum(operation_of(plus), xs@.subrange(from as int, i as int)),
        decreases xs.len() - i,
    {
        assert(xs@.subrange(from as int, i + 1).drop_last() == xs@.subrange(
            from as int,
            i as int,
        ));
        acc = combine(plus, acc, xs[i]);
        i += 1;
    }
    assert(xs@.subrange(from as int, xs.len() as int) == xs@.skip(from as int));
    acc
}

/// Applies a native function to evaluated arguments.
pub fn apply_builtin<P: Fn(u64, u64) -> u64, M: Fn(u64, u64) -> u64>(
    f: Builtin,
    arguments: &[LispExpression],
    plus: &P,
    minus: &M,
) -> (r: Result<LispExpression, LispError>)
    requires
        is_operation(plus),
        is_operation(minus),
    ensures
        valued(r) == apply(f, forms(arguments@), operation_of(plus), operation_of(minus)),
{
    match parse_list_of_floats(arguments) {
        Err(e) => Err(e),
        Ok(xs) => match f {
            Builtin::Add => {
                assert(xs@.skip(0) == xs@);
                Ok(LispExpression::Number(sum_from(&xs, 0, plus)))
            },
            Builtin::Subtract => {
                if xs.len() == 0 {
                    Err(LispError::NoOperand)
                } else {
                    assert(xs@.skip(1) == xs@.drop_first());
                    let rest = sum_from(&xs, 1, plus);
                    Ok(LispExpression::Number(combine(minus, xs[0], rest)))
                }
            },
        },
    }
}

} // verus!
