//! Which token sequences parse: those that begin with a well-formed
//! expression, one whose parentheses match.

use vstd::prelude::*;
use crate::error::Failure;
use crate::expression::Form;
use crate::parser::{close_token, open_token, parse_tokens, read_list};

verus! {

/// `k` tokens further on.
pub open spec fn shift(at: Option<nat>, k: nat) -> Option<nat> {
    match at {
        Some(n) => Some(n + k),
        None => None,
    }
}

/// With `depth` lists open, the number of tokens up to and with the `)` that
/// closes the outermost of them; `None` where the tokens run out before it.
pub open spec fn closing(tokens: Seq<Seq<char>>, depth: nat) -> Option<nat>
    decreases tokens.len(),
{
    if tokens.len() == 0 {
        None
    } else if tokens[0] == close_token() && depth <= 1 {
        Some(1)
    } else {
        let next: nat = if tokens[0] == open_token() {
            depth + 1
        } else if tokens[0] == close_token() {
            (depth - 1) as nat
        } else {
            depth
        };
        shift(closing(tokens.drop_first(), next), 1)
    }
}

/// The length of the well-formed expression that `tokens` begin with: one
/// for an atom, and for a `(` the tokens up to the `)` that matches it.
/// `None` where there is no token, where the first is a `)`, and where a `(`
/// is never matched.
pub open spec fn expression_len(tokens: Seq<Seq<char>>) -> Option<nat> {
    if tokens.len() == 0 || tokens[0] == close_token() {
        None
    } else if tokens[0] == open_token() {
        shift(closing(tokens.drop_first(), 1), 1)
    } else {
        Some(1)
    }
}

/// Parsing an expression inside `depth` open lists takes a well-formed
/// expression off the tokens and leaves the depth as it is; it fails where
/// a `(` is never matched.
pub proof fn lemma_parse_scan(
    tokens: Seq<Seq<char>>,
    depth: nat,
    read: spec_fn(Seq<char>) -> Option<u64>,
)
    requires
        tokens.len() > 0,
        tokens[0] != close_token(),
        depth >= 1,
    ensures
        match parse_tokens(tokens, read) {
            Ok((_, rest)) => {
                &&& expression_len(tokens) is Some
                &&& 1 <= expression_len(tokens)->0 <= tokens.len()
                &&& rest == tokens.skip(expression_len(tokens)->0 as int)
                &&& closing(tokens, depth) == shift(closing(rest, depth), expression_len(tokens)->0)
            },
            Err(failure) => {
                &&& failure == Failure::MissingClose
                &&& expression_len(tokens) is None
                &&& closing(tokens, depth) is None
            },
        },
    decreases tokens.len(), 0nat,
{
    let later = tokens.drop_first();
    assert(open_token()[0] != close_token()[0]);
    if tokens[0] == open_token() {
        lemma_read_scan(later, Seq::empty(), depth + 1, read);
        match read_list(later, Seq::empty(), read) {
            Ok((_, rest)) => {
                let k = closing(later, 1)->0;
                assert(later.skip(k as int) =~= tokens.skip((k + 1) as int));
            },
            Err(_) => {},
        }
    } else {
        assert(later =~= tokens.skip(1));
    }
}

/// Reading a list's elements inside `depth` open lists goes up to the `)`
/// that closes the innermost, and fails where there is none.
pub proof fn lemma_read_scan(
    tokens: Seq<Seq<char>>,
    items: Seq<Form>,
    depth: nat,
    read: spec_fn(Seq<char>) -> Option<u64>,
)
    requires
        depth >= 1,
    ensures
        match read_list(tokens, items, read) {
            Ok((_, rest)) => {
                &&& closing(tokens, 1) is Some
                &&& 1 <= closing(tokens, 1)->0 <= tokens.len()
                &&& rest == tokens.skip(closing(tokens, 1)->0 as int)
                &&& depth >= 2 ==> closing(tokens, depth) == shift(
                    closing(rest, (depth - 1) as nat),
                    closing(tokens, 1)->0,
                )
            },
            Err(failure) => {
                &&& failure == Failure::MissingClose
                &&& closing(tokens, 1) is None
                &&& closing(tokens, depth) is None
            },
        },
    decreases tokens.len(), 1nat,
{
    assert(open_token()[0] != close_token()[0]);
    if tokens.len() == 0 {
    } else if tokens[0] == close_token() {
        assert(tokens.drop_first() =~= tokens.skip(1));
    } else {
        lemma_parse_scan(tokens, 1, read);
        lemma_parse_scan(tokens, depth, read);
        match parse_tokens(tokens, read) {
            Ok((item, rest)) => {
                let k = expression_len(tokens)->0;
                lemma_read_scan(rest, items.push(item), depth, read);
                match read_list(rest, items.push(item), read) {
                    Ok((_, after)) => {
                        let j = closing(rest, 1)->0;
                        assert(rest.skip(j as int) =~= tokens.skip((k + j) as int));
                    },
                    Err(_) => {},
                }
            },
            Err(_) => {},
        }
    }
}

/// Parsing succeeds exactly on tokens that begin with a well-formed
/// expression, and leaves the tokens after it. It fails on all others: with
/// no token, on a `)` that nothing opened, and on a `(` that nothing closes.
pub proof fn law_parse_succeeds_on_well_formed(
    tokens: Seq<Seq<char>>,
    read: spec_fn(Seq<char>) -> Option<u64>,
)
    ensures
        parse_tokens(tokens, read) is Ok <==> expression_len(tokens) is Some,
        parse_tokens(tokens, read) is Ok ==> parse_tokens(tokens, read)->Ok_0.1 == tokens.skip(
            expression_len(tokens)->0 as int,
        ),
        tokens.len() == 0 ==> parse_tokens(tokens, read) == Err::<(Form, Seq<Seq<char>>), Failure>(
            Failure::NoToken,
        ),
        tokens.len() > 0 && tokens[0] == close_token() ==> parse_tokens(tokens, read) == Err::<
            (Form, Seq<Seq<char>>),
            Failure,
        >(Failure::StrayClose),
        tokens.len() > 0 && tokens[0] == open_token() && closing(tokens.drop_first(), 1) is None
            ==> parse_tokens(tokens, read) == Err::<(Form, Seq<Seq<char>>), Failure>(
            Failure::MissingClose,
        ),
{
    assert(open_token()[0] != close_token()[0]);
    if tokens.len() > 0 && tokens[0] != close_token() {
        lemma_parse_scan(tokens, 1, read);
    }
}

} // verus!
