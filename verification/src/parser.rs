//! Building an expression tree from tokens.

use vstd::prelude::*;
use vstd::slice::slice_subrange;
use vstd::string::{StrSliceExecFns, StringExecFns};
use crate::error::{Failure, LispError};
use crate::expression::{forms, lemma_list_view, Form, LispExpression};
use crate::numbers::{is_reader, read_number, reader_of};
use crate::tokenizer::texts;

verus! {

/// The token that opens a list.
pub open spec fn open_token() -> Seq<char> {
    seq!['(']
}

/// The token that closes a list.
pub open spec fn close_token() -> Seq<char> {
    seq![')']
}

/// What an atom stands for: the number that `read` makes of it, or else the
/// symbol of that name.
pub open spec fn atom_of(token: Seq<char>, read: spec_fn(Seq<char>) -> Option<u64>) -> Form {
    match read(token) {
        Some(bits) => Form::Number(bits),
        None => Form::Symbol(token),
    }
}

/// The first expression of `tokens` and the tokens after it.
pub open spec fn parse_tokens(
    tokens: Seq<Seq<char>>,
    read: spec_fn(Seq<char>) -> Option<u64>,
) -> Result<(Form, Seq<Seq<char>>), Failure>
    decreases tokens.len(), 0nat,
{
    if tokens.len() == 0 {
        Err(Failure::NoToken)
    } else if tokens[0] == open_token() {
        read_list(tokens.drop_first(), Seq::empty(), read)
    } else if tokens[0] == close_token() {
        Err(Failure::StrayClose)
    } else {
        Ok((atom_of(tokens[0], read), tokens.drop_first()))
    }
}

/// The list that begins with `items` and goes on with the expressions of
/// `tokens` up to the `)` that closes it, and the tokens after that `)`.
///
/// An expression always takes at least one token, so the test on the
/// length of what it leaves never fails; it is there for termination.
pub open spec fn read_list(
    tokens: Seq<Seq<char>>,
    items: Seq<Form>,
    read: spec_fn(Seq<char>) -> Option<u64>,
) -> Result<(Form, Seq<Seq<char>>), Failure>
    decreases tokens.len(), 1nat,
{
    if tokens.len() == 0 {
        Err(Failure::MissingClose)
    } else if tokens[0] == close_token() {
        Ok((Form::List(items), tokens.drop_first()))
    } else {
        match parse_tokens(tokens, read) {
            Err(failure) => Err(failure),
            Ok((item, rest)) => if rest.len() < tokens.len() {
                read_list(rest, items.push(item), read)
            } else {
                Err(Failure::MissingClose)
            },
        }
    }
}

/// The value of a parser's result.
pub open spec fn parsed(r: Result<(LispExpression, &[String]), LispError>) -> Result<
    (Form, Seq<Seq<char>>),
    Failure,
> {
    match r {
        Ok((expression, rest)) => Ok((expression@, texts(rest@))),
        Err(e) => Err(e@),
    }
}

/// Whether a token is the one character `c`.
fn is_char(token: &String, c: char) -> (r: bool)
    ensures
        r == (token@ == seq![c]),
{
    let text = token.as_str();
    if text.unicode_len() == 1 {
        let first = text.get_char(0);
        assert(first == c ==> text@ =~= seq![c]);
        first == c
    } else {
        false
    }
}

/// Reads an atom: a number where `read` finds one, a symbol otherwise.
pub fn parse_atomic<R: Fn(&str) -> Option<u64>>(token: &str, read: &R) -> (atom: LispExpression)
    requires
        is_reader(read),
    ensures
        atom@ == atom_of(token@, reader_of(read)),
{
    match read_number(token, read) {
        Some(bits) => LispExpression::Number(bits),
        None => LispExpression::Symbol(String::from_str(token)),
    }
}

/// Parses the first expression of `tokens` and returns it with the tokens
/// that follow it.
pub fn lisp_parse<'a, R: Fn(&str) -> Option<u64>>(tokens: &'a [String], read: &R) -> (r: Result<
    (LispExpression, &'a [String]),
    LispError,
>)
    requires
        is_reader(read),
    ensures
        parsed(r) == parse_tokens(texts(tokens@), reader_of(read)),
        r is Ok ==> r->Ok_0.1@.len() < tokens@.len(),
    decreases tokens@.len(), 0nat,
{
    if tokens.len() == 0 {
        return Err(LispError::NoToken);
    }
    let token = &tokens[0];
    let remaining = slice_subrange(tokens, 1, tokens.len());
    assert(texts(remaining@) == texts(tokens@).drop_first());
    if is_char(token, '(') {
        read_sequentially(remaining, read)
    } else if is_char(token, ')') {
        Err(LispError::StrayClose)
    } else {
        Ok((parse_atomic(token.as_str(), read), remaining))
    }
}

/// Parses expressions up to the `)` that closes the list they stand in, and
/// returns the list with the tokens after that `)`.
pub fn read_sequentially<'a, R: Fn(&str) -> Option<u64>>(
    tokens: &'a [String],
    read: &R,
) -> (r: Result<(LispExpression, &'a [String]), LispError>)
    requires
        is_reader(read),
    ensures
        parsed(r) == read_list(texts(tokens@), Seq::empty(), reader_of(read)),
        r is Ok ==> r->Ok_0.1@.len() < tokens@.len(),
    decreases tokens@.len(), 1nat,
{
    let mut res: Vec<LispExpression> = Vec::new();
    let mut xs: &[String] = tokens;
    assert(forms(res@) == Seq::<Form>::empty());
    loop
        invariant
            is_reader(read),
            xs@.len() <= tokens@.len(),
            read_list(texts(tokens@), Seq::empty(), reader_of(read)) == read_list(
                texts(xs@),
                forms(res@),
                reader_of(read),
            ),
        decreases xs@.len(),
    {
        if xs.len() == 0 {
            return Err(LispError::MissingClose);
        }
        if is_char(&xs[0], ')') {
            let remaining = slice_subrange(xs, 1, xs.len());
            proof {
                assert(texts(remaining@) == texts(xs@).drop_first());
                lemma_list_view(res);
            }
            return Ok((LispExpression::List(res), remaining));
        }
        match lisp_parse(xs, read) {
            Err(e) => {
                return Err(e);
            },
            Ok((expression, new_xs)) => {
                let ghost before = forms(res@);
                res.push(expression);
                assert(forms(res@) == before.push(expression@));
                xs = new_xs;
            },
        }
    }
}

} // verus!
