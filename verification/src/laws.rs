//! What holds of parsing, evaluation and printing together.

use vstd::prelude::*;
use crate::builtins::{all_numbers, apply, numbers_of, sum, zero};
use crate::display::{joined, text_of};
use crate::environment::{builtins, minus_name, plus_name};
use crate::error::Failure;
use crate::evaluator::{eval, eval_arguments, run};
use crate::expression::{Builtin, Form};
use crate::parser::{atom_of, close_token, open_token, parse_tokens, read_list};
use crate::tokenizer::{atom_len, is_atom_char, is_paren, is_space, tokens_of};

verus! {

/// A token that is no parenthesis.
pub open spec fn is_atom(token: Seq<char>) -> bool {
    token != open_token() && token != close_token()
}

/// What each of a sequence of atoms stands for.
pub open spec fn atoms_of(atoms: Seq<Seq<char>>, read: spec_fn(Seq<char>) -> Option<u64>) -> Seq<
    Form,
> {
    Seq::new(atoms.len(), |i: int| atom_of(atoms[i], read))
}

/// The numbers `xs` as expressions.
pub open spec fn numbers(xs: Seq<u64>) -> Seq<Form> {
    Seq::new(xs.len(), |i: int| Form::Number(xs[i]))
}

/// The call of the function named `name` on the numbers `xs`.
pub open spec fn call(name: Seq<char>, xs: Seq<u64>) -> Form {
    Form::List(seq![Form::Symbol(name)] + numbers(xs))
}

/// The tokens of a list of atoms: `(`, the atoms, `)`.
pub open spec fn list_tokens(atoms: Seq<Seq<char>>) -> Seq<Seq<char>> {
    seq![open_token()] + atoms + seq![close_token()]
}

/// `parts`, with a comma between each two.
pub open spec fn comma_joined(parts: Seq<Seq<char>>) -> Seq<char>
    decreases parts.len(),
{
    if parts.len() == 0 {
        Seq::empty()
    } else if parts.len() == 1 {
        parts[0]
    } else {
        comma_joined(parts.drop_last()) + seq![','] + parts.last()
    }
}

/// What a token can be: a parenthesis by itself, or one or more characters
/// none of which is white space or a parenthesis.
pub open spec fn is_token(token: Seq<char>) -> bool {
    ||| token == open_token()
    ||| token == close_token()
    ||| token.len() > 0 && forall|k: int| 0 <= k < token.len() ==> is_atom_char(#[trigger] token[k])
}

/// The longest prefix of atom characters lies within the text and holds
/// atom characters only.
pub proof fn lemma_atom_prefix(s: Seq<char>)
    ensures
        atom_len(s) <= s.len(),
        forall|k: int| 0 <= k < atom_len(s) ==> is_atom_char(#[trigger] s[k]),
    decreases s.len(),
{
    if s.len() > 0 && is_atom_char(s[0]) {
        let later = s.drop_first();
        lemma_atom_prefix(later);
        assert forall|k: int| 0 <= k < atom_len(s) implies is_atom_char(#[trigger] s[k]) by {
            if k > 0 {
                assert(s[k] == later[k - 1]);
            }
        }
    }
}

/// Every token of a line is a parenthesis or an atom; a line without
/// characters has no token.
pub proof fn law_tokens(text: Seq<char>)
    ensures
        forall|i: int| 0 <= i < tokens_of(text).len() ==> is_token(#[trigger] tokens_of(text)[i]),
        text.len() == 0 ==> tokens_of(text).len() == 0,
    decreases text.len(),
{
    if text.len() == 0 {
    } else if is_space(text[0]) {
        law_tokens(text.drop_first());
    } else if is_paren(text[0]) {
        law_tokens(text.drop_first());
        let first = seq![text[0]];
        assert(first =~= open_token() || first =~= close_token());
        assert forall|i: int| 0 <= i < tokens_of(text).len() implies is_token(
            #[trigger] tokens_of(text)[i],
        ) by {
            if i > 0 {
                assert(tokens_of(text)[i] == tokens_of(text.drop_first())[i - 1]);
            }
        }
    } else {
        lemma_atom_prefix(text);
        let n = atom_len(text);
        let first = text.take(n as int);
        law_tokens(text.skip(n as int));
        assert(is_token(first));
        assert forall|i: int| 0 <= i < tokens_of(text).len() implies is_token(
            #[trigger] tokens_of(text)[i],
        ) by {
            if i > 0 {
                assert(tokens_of(text)[i] == tokens_of(text.skip(n as int))[i - 1]);
            }
        }
    }
}

/// Atoms up to a `)` are read one by one into the list that they close.
pub proof fn lemma_read_atoms(
    atoms: Seq<Seq<char>>,
    items: Seq<Form>,
    rest: Seq<Seq<char>>,
    read: spec_fn(Seq<char>) -> Option<u64>,
)
    requires
        forall|i: int| 0 <= i < atoms.len() ==> is_atom(#[trigger] atoms[i]),
    ensures
        read_list(atoms + seq![close_token()] + rest, items, read) == Ok::<
            (Form, Seq<Seq<char>>),
            Failure,
        >((Form::List(items + atoms_of(atoms, read)), rest)),
    decreases atoms.len(),
{
    let tokens = atoms + seq![close_token()] + rest;
    if atoms.len() == 0 {
        assert(tokens[0] == close_token());
        assert(tokens.drop_first() =~= rest);
        assert(items + atoms_of(atoms, read) =~= items);
        assert(read_list(tokens, items, read) == Ok::<(Form, Seq<Seq<char>>), Failure>(
            (Form::List(items), rest),
        ));
    } else {
        assert(tokens[0] == atoms[0]);
        assert(open_token()[0] != close_token()[0]);
        let later = atoms.drop_first();
        assert(tokens.drop_first() =~= later + seq![close_token()] + rest);
        assert forall|i: int| 0 <= i < later.len() implies is_atom(#[trigger] later[i]) by {
            assert(later[i] == atoms[i + 1]);
        }
        let first = atom_of(atoms[0], read);
        lemma_read_atoms(later, items.push(first), rest, read);
        assert(items.push(first) + atoms_of(later, read) =~= items + atoms_of(atoms, read));
        assert(parse_tokens(tokens, read) == Ok::<(Form, Seq<Seq<char>>), Failure>(
            (first, tokens.drop_first()),
        ));
        assert(read_list(tokens, items, read) == read_list(
            tokens.drop_first(),
            items.push(first),
            read,
        ));
    }
}

/// A parenthesized run of atoms always parses: to the list of what the atoms
/// stand for, with the tokens after the `)` left over.
pub proof fn law_flat_list_parses(
    atoms: Seq<Seq<char>>,
    rest: Seq<Seq<char>>,
    read: spec_fn(Seq<char>) -> Option<u64>,
)
    requires
        forall|i: int| 0 <= i < atoms.len() ==> is_atom(#[trigger] atoms[i]),
    ensures
        parse_tokens(list_tokens(atoms) + rest, read) == Ok::<(Form, Seq<Seq<char>>), Failure>(
            (Form::List(atoms_of(atoms, read)), rest),
        ),
{
    let tokens = list_tokens(atoms) + rest;
    assert(tokens[0] == open_token());
    assert(tokens.drop_first() =~= atoms + seq![close_token()] + rest);
    lemma_read_atoms(atoms, Seq::empty(), rest, read);
    assert(Seq::<Form>::empty() + atoms_of(atoms, read) =~= atoms_of(atoms, read));
}

/// Numbers in argument position evaluate to themselves.
pub proof fn lemma_number_arguments(
    head: Form,
    xs: Seq<u64>,
    n: nat,
    env: Map<Seq<char>, Form>,
    plus: spec_fn(u64, u64) -> u64,
    minus: spec_fn(u64, u64) -> u64,
)
    requires
        1 <= n <= xs.len() + 1,
    ensures
        eval_arguments(seq![head] + numbers(xs), n, env, plus, minus) == Ok::<Seq<Form>, Failure>(
            numbers(xs).take(n - 1),
        ),
    decreases n,
{
    let items = seq![head] + numbers(xs);
    if n > 1 {
        lemma_number_arguments(head, xs, (n - 1) as nat, env, plus, minus);
        assert(items[n - 1] == Form::Number(xs[n - 2]));
        assert(numbers(xs).take(n - 2).push(items[n - 1]) =~= numbers(xs).take(n - 1));
        assert(eval(items[n - 1], env, plus, minus) == Ok::<Form, Failure>(items[n - 1]));
        assert(eval_arguments(items, (n - 1) as nat, env, plus, minus) == Ok::<
            Seq<Form>,
            Failure,
        >(numbers(xs).take(n - 2)));
    } else {
        assert(numbers(xs).take(0) =~= Seq::<Form>::empty());
    }
}

/// A call of a native function on numbers applies it to those numbers.
pub proof fn lemma_call_applies(
    name: Seq<char>,
    f: Builtin,
    xs: Seq<u64>,
    env: Map<Seq<char>, Form>,
    plus: spec_fn(u64, u64) -> u64,
    minus: spec_fn(u64, u64) -> u64,
)
    requires
        env.contains_key(name),
        env[name] == Form::Function(f),
    ensures
        eval(call(name, xs), env, plus, minus) == apply(f, numbers(xs), plus, minus),
        all_numbers(numbers(xs)),
        numbers_of(numbers(xs)) == xs,
{
    let items = seq![Form::Symbol(name)] + numbers(xs);
    assert(items[0] == Form::Symbol(name));
    lemma_number_arguments(Form::Symbol(name), xs, items.len(), env, plus, minus);
    assert(numbers(xs).take(xs.len() as int) =~= numbers(xs));
    assert(numbers_of(numbers(xs)) =~= xs);
    assert(eval(items[0], env, plus, minus) == Ok::<Form, Failure>(Form::Function(f)));
    assert(eval_arguments(items, items.len(), env, plus, minus) == Ok::<Seq<Form>, Failure>(
        numbers(xs),
    ));
}

/// `(+ a1 .. an)` evaluates to the sum of the numbers, added from the left
/// starting at zero; `(+)` evaluates to zero.
pub proof fn law_sum(
    xs: Seq<u64>,
    plus: spec_fn(u64, u64) -> u64,
    minus: spec_fn(u64, u64) -> u64,
)
    ensures
        eval(call(plus_name(), xs), builtins(), plus, minus) == Ok::<Form, Failure>(
            Form::Number(sum(plus, xs)),
        ),
        xs.len() == 0 ==> sum(plus, xs) == zero(),
        xs.len() > 0 ==> sum(plus, xs) == plus(sum(plus, xs.drop_last()), xs.last()),
{
    assert(plus_name()[0] != minus_name()[0]);
    lemma_call_applies(plus_name(), Builtin::Add, xs, builtins(), plus, minus);
}

/// `(- a1 a2 .. an)` evaluates to the first number less the sum of the
/// others. For a single number that sum is zero, so `(- a1)` evaluates to
/// `a1` wherever taking zero from `a1` leaves it as it is.
pub proof fn law_difference(
    xs: Seq<u64>,
    plus: spec_fn(u64, u64) -> u64,
    minus: spec_fn(u64, u64) -> u64,
)
    requires
        xs.len() >= 1,
    ensures
        eval(call(minus_name(), xs), builtins(), plus, minus) == Ok::<Form, Failure>(
            Form::Number(minus(xs[0], sum(plus, xs.drop_first()))),
        ),
        xs.len() == 1 ==> sum(plus, xs.drop_first()) == zero(),
        xs.len() == 1 && minus(xs[0], zero()) == xs[0] ==> eval(
            call(minus_name(), xs),
            builtins(),
            plus,
            minus,
        ) == Ok::<Form, Failure>(Form::Number(xs[0])),
{
    lemma_call_applies(minus_name(), Builtin::Subtract, xs, builtins(), plus, minus);
}

/// The text of a line `(+ a1 .. an)`, or `(- a1 .. an)`, parses to the call
/// of that function on the numbers that the atoms read as.
pub proof fn law_call_parses(
    name: Seq<char>,
    atoms: Seq<Seq<char>>,
    xs: Seq<u64>,
    rest: Seq<Seq<char>>,
    read: spec_fn(Seq<char>) -> Option<u64>,
)
    requires
        is_atom(name),
        read(name) is None,
        atoms.len() == xs.len(),
        forall|i: int| 0 <= i < atoms.len() ==> is_atom(#[trigger] atoms[i]),
        forall|i: int| 0 <= i < atoms.len() ==> read(#[trigger] atoms[i]) == Some(xs[i]),
    ensures
        parse_tokens(list_tokens(seq![name] + atoms) + rest, read) == Ok::<
            (Form, Seq<Seq<char>>),
            Failure,
        >((call(name, xs), rest)),
{
    let all = seq![name] + atoms;
    assert forall|i: int| 0 <= i < all.len() implies is_atom(#[trigger] all[i]) by {
        if i > 0 {
            assert(all[i] == atoms[i - 1]);
        }
    }
    law_flat_list_parses(all, rest, read);
    assert forall|i: int| 0 <= i < all.len() implies atoms_of(all, read)[i] == (seq![
        Form::Symbol(name),
    ] + numbers(xs))[i] by {
        if i > 0 {
            assert(all[i] == atoms[i - 1]);
        }
    }
    assert(atoms_of(all, read) =~= seq![Form::Symbol(name)] + numbers(xs));
}

/// A line whose tokens are `(`, `+`, atoms that read as the numbers `xs`,
/// and `)` evaluates to the sum of `xs`, whatever follows the `)`. The same
/// line with `-`, and at least one atom, evaluates to the first number less
/// the sum of the others.
pub proof fn law_arithmetic_line(
    text: Seq<char>,
    atoms: Seq<Seq<char>>,
    xs: Seq<u64>,
    rest: Seq<Seq<char>>,
    read: spec_fn(Seq<char>) -> Option<u64>,
    plus: spec_fn(u64, u64) -> u64,
    minus: spec_fn(u64, u64) -> u64,
)
    requires
        read(plus_name()) is None,
        read(minus_name()) is None,
        atoms.len() == xs.len(),
        forall|i: int| 0 <= i < atoms.len() ==> is_atom(#[trigger] atoms[i]),
        forall|i: int| 0 <= i < atoms.len() ==> read(#[trigger] atoms[i]) == Some(xs[i]),
    ensures
        tokens_of(text) == list_tokens(seq![plus_name()] + atoms) + rest ==> run(
            text,
            builtins(),
            read,
            plus,
            minus,
        ) == Ok::<Form, Failure>(Form::Number(sum(plus, xs))),
        xs.len() >= 1 && tokens_of(text) == list_tokens(seq![minus_name()] + atoms) + rest ==> run(
            text,
            builtins(),
            read,
            plus,
            minus,
        ) == Ok::<Form, Failure>(Form::Number(minus(xs[0], sum(plus, xs.drop_first())))),
{
    assert(plus_name()[0] != open_token()[0] && plus_name()[0] != close_token()[0]);
    assert(minus_name()[0] != open_token()[0] && minus_name()[0] != close_token()[0]);
    law_call_parses(plus_name(), atoms, xs, rest, read);
    law_call_parses(minus_name(), atoms, xs, rest, read);
    law_sum(xs, plus, minus);
    if xs.len() >= 1 {
        law_difference(xs, plus, minus);
    }
}

/// The texts of the first `n` elements, joined, are the comma-joined
/// sequence of those texts.
pub proof fn lemma_joined(items: Seq<Form>, n: nat, show: spec_fn(u64) -> Seq<char>)
    requires
        n <= items.len(),
    ensures
        joined(items, n, show) == comma_joined(
            Seq::new(n, |i: int| text_of(items[i], show)),
        ),
    decreases n,
{
    let parts = Seq::new(n, |i: int| text_of(items[i], show));
    if n >= 2 {
        lemma_joined(items, (n - 1) as nat, show);
        assert(parts.drop_last() =~= Seq::new((n - 1) as nat, |i: int| text_of(items[i], show)));
    }
}

/// A list prints as its elements' texts, joined by commas, in parentheses.
pub proof fn law_list_text(items: Seq<Form>, show: spec_fn(u64) -> Seq<char>)
    ensures
        text_of(Form::List(items), show) == seq!['('] + comma_joined(
            Seq::new(items.len(), |i: int| text_of(items[i], show)),
        ) + seq![')'],
{
    lemma_joined(items, items.len(), show);
}

/// A parsed list of numbers prints as the numbers' texts, joined by commas,
/// in parentheses.
pub proof fn law_numeric_list_round_trip(
    atoms: Seq<Seq<char>>,
    xs: Seq<u64>,
    read: spec_fn(Seq<char>) -> Option<u64>,
    show: spec_fn(u64) -> Seq<char>,
)
    requires
        atoms.len() == xs.len(),
        forall|i: int| 0 <= i < atoms.len() ==> is_atom(#[trigger] atoms[i]),
        forall|i: int| 0 <= i < atoms.len() ==> read(#[trigger] atoms[i]) == Some(xs[i]),
    ensures
        parse_tokens(list_tokens(atoms), read) is Ok,
        text_of(parse_tokens(list_tokens(atoms), read)->Ok_0.0, show) == seq!['('] + comma_joined(
            Seq::new(xs.len(), |i: int| show(xs[i])),
        ) + seq![')'],
{
    law_flat_list_parses(atoms, Seq::empty(), read);
    assert(list_tokens(atoms) + Seq::<Seq<char>>::empty() =~= list_tokens(atoms));
    let items = atoms_of(atoms, read);
    law_list_text(items, show);
    assert(Seq::new(items.len(), |i: int| text_of(items[i], show)) =~= Seq::new(
        xs.len(),
        |i: int| show(xs[i]),
    ));
}

} // verus!
