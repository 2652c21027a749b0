//! Reducing an expression tree to a value.

use vstd::prelude::*;
use crate::builtins::{apply, apply_builtin, valued};
use crate::environment::LispEnvironment;
use crate::error::{Failure, LispError};
use crate::expression::{forms, lemma_list_view, Form, LispExpression};
use crate::numbers::{is_operation, is_reader, operation_of, reader_of};
use crate::parser::{lisp_parse, parse_tokens};
use crate::tokenizer::{lisp_tokenize, tokens_of};

verus! {

/// The value of an expression under the bindings `env`.
///
/// A symbol stands for what it is bound to and a number for itself. A list
/// is a call: its first element has to evaluate to a function, which is
/// applied to the values of the others. A function by itself has no value.
pub open spec fn eval(
    e: Form,
    env: Map<Seq<char>, Form>,
    plus: spec_fn(u64, u64) -> u64,
    minus: spec_fn(u64, u64) -> u64,
) -> Result<Form, Failure>
    decreases e, 0nat,
{
    match e {
        Form::Symbol(name) => if env.contains_key(name) {
            Ok(env[name])
        } else {
            Err(Failure::UnboundSymbol(name))
        },
        Form::Number(_) => Ok(e),
        Form::List(items) => if items.len() == 0 {
            Err(Failure::EmptyList)
        } else {
            match eval(items[0], env, plus, minus) {
                Err(failure) => Err(failure),
                Ok(Form::Function(f)) => match eval_arguments(
                    items,
                    items.len(),
                    env,
                    plus,
                    minus,
                ) {
                    Err(failure) => Err(failure),
                    Ok(arguments) => apply(f, arguments, plus, minus),
                },
                Ok(_) => Err(Failure::NotCallable),
            }
        },
        Form::Function(_) => Err(Failure::BareFunction),
    }
}

/// The values of a call's arguments, `items[1]` up to `items[n - 1]`, taken
/// from left to right; the first failure among them ends it.
pub open spec fn eval_arguments(
    items: Seq<Form>,
    n: nat,
    env: Map<Seq<char>, Form>,
    plus: spec_fn(u64, u64) -> u64,
    minus: spec_fn(u64, u64) -> u64,
) -> Result<Seq<Form>, Failure>
    decreases items, n,
{
    if 1 < n <= items.len() {
        match eval_arguments(items, (n - 1) as nat, env, plus, minus) {
            Err(failure) => Err(failure),
            Ok(values) => match eval(items[n - 1], env, plus, minus) {
                Err(failure) => Err(failure),
                Ok(value) => Ok(values.push(value)),
            },
        }
    } else {
        Ok(Seq::empty())
    }
}

/// What a line of text evaluates to: the value of its first expression.
/// Tokens after that expression are ignored.
pub open spec fn run(
    text: Seq<char>,
    env: Map<Seq<char>, Form>,
    read: spec_fn(Seq<char>) -> Option<u64>,
    plus: spec_fn(u64, u64) -> u64,
    minus: spec_fn(u64, u64) -> u64,
) -> Result<Form, Failure> {
    match parse_tokens(tokens_of(text), read) {
        Err(failure) => Err(failure),
        Ok((form, _)) => eval(form, env, plus, minus),
    }
}

/// Evaluates an expression. The environment is left as it was.
pub fn evaluate<P: Fn(u64, u64) -> u64, M: Fn(u64, u64) -> u64>(
    expression: &LispExpression,
    environment: &mut LispEnvironment,
    plus: &P,
    minus: &M,
) -> (r: Result<LispExpression, LispError>)
    requires
        is_operation(plus),
        is_operation(minus),
    ensures
        valued(r) == eval(
            expression@,
            old(environment)@,
            operation_of(plus),
            operation_of(minus),
        ),
        final(environment)@ == old(environment)@,
    decreases expression,
{
    let ghost env = environment@;
    let ghost add = operation_of(plus);
    let ghost subtract = operation_of(minus);
    match expression {
        LispExpression::Symbol(name) => match environment.get(name.as_str()) {
            Some(value) => Ok(value.clone()),
            None => Err(LispError::UnboundSymbol(name.clone())),
        },
        LispExpression::Number(bits) => Ok(LispExpression::Number(*bits)),
        LispExpression::List(list) => {
            proof {
                lemma_list_view(*list);
                assert(expression->List_0 == *list);
            }
            if list.len() == 0 {
                return Err(LispError::EmptyList);
            }
            proof {
                vstd::std_specs::vec::axiom_vec_index_decreases(*list, 0);
            }
            let initial_evaluation = match evaluate(&list[0], environment, plus, minus) {
                Ok(value) => value,
                Err(e) => {
                    return Err(e);
                },
            };
            match initial_evaluation {
                LispExpression::Function(f) => {
                    let mut arguments: Vec<LispExpression> = Vec::new();
                    let mut i: usize = 1;
                    assert(forms(arguments@) =~= Seq::<Form>::empty());
                    while i < list.len()
                        invariant
                            env == old(environment)@,
                            expression@ == Form::List(forms(list@)),
                            add == operation_of(plus),
                            subtract == operation_of(minus),
                            eval(forms(list@)[0], env, add, subtract) == Ok::<Form, Failure>(
                                Form::Function(f),
                            ),
                            is_operation(plus),
                            is_operation(minus),
                            expression->List_0 == *list,
                            expression is List,
                            1 <= i <= list.len(),
                            environment@ == env,
                            eval_arguments(forms(list@), i as nat, env, add, subtract) == Ok::<
                                Seq<Form>,
                                Failure,
                            >(forms(arguments@)),
                        decreases list.len() - i,
                    {
                        proof {
                            vstd::std_specs::vec::axiom_vec_index_decreases(*list, i as int);
                        }
                        let ghost before = forms(arguments@);
                        match evaluate(&list[i], environment, plus, minus) {
                            Ok(value) => {
                                arguments.push(value);
                                assert(forms(arguments@) == before.push(value@));
                            },
                            Err(e) => {
                                assert(eval_arguments(
                                    forms(list@),
                                    list@.len(),
                                    env,
                                    add,
                                    subtract,
                                ) == Err::<Seq<Form>, Failure>(e@)) by {
                                    lemma_first_failure(
                                        forms(list@),
                                        (i + 1) as nat,
                                        list@.len(),
                                        env,
                                        add,
                                        subtract,
                                    );
                                }
                                return Err(e);
                            },
                        }
                        i += 1;
                    }
                    apply_builtin(f, arguments.as_slice(), plus, minus)
                },
                _ => Err(LispError::NotCallable),
            }
        },
        LispExpression::Function(_) => Err(LispError::BareFunction),
    }
}

/// A failure among the first arguments is the failure of all of them.
pub proof fn lemma_first_failure(
    items: Seq<Form>,
    n: nat,
    m: nat,
    env: Map<Seq<char>, Form>,
    plus: spec_fn(u64, u64) -> u64,
    minus: spec_fn(u64, u64) -> u64,
)
    requires
        n <= m <= items.len(),
        eval_arguments(items, n, env, plus, minus) is Err,
    ensures
        eval_arguments(items, m, env, plus, minus) == eval_arguments(items, n, env, plus, minus),
    decreases m,
{
    if n < m {
        lemma_first_failure(items, n, (m - 1) as nat, env, plus, minus);
    }
}

/// Tokenizes a line, parses its first expression and evaluates it.
pub fn lisp_parse_evaluate<
    R: Fn(&str) -> Option<u64>,
    P: Fn(u64, u64) -> u64,
    M: Fn(u64, u64) -> u64,
>(
    expression: String,
    environment: &mut LispEnvironment,
    read: &R,
    plus: &P,
    minus: &M,
) -> (r: Result<LispExpression, LispError>)
    requires
        is_reader(read),
        is_operation(plus),
        is_operation(minus),
    ensures
        valued(r) == run(
            expression@,
            old(environment)@,
            reader_of(read),
            operation_of(plus),
            operation_of(minus),
        ),
        final(environment)@ == old(environment)@,
{
    let tokens = lisp_tokenize(expression);
    match lisp_parse(tokens.as_slice(), read) {
        Err(e) => Err(e),
        Ok((parsed_expression, _)) => evaluate(&parsed_expression, environment, plus, minus),
    }
}

} // verus!
