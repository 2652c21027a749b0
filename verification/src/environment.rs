//! The symbol table.

use vstd::prelude::*;
use vstd::string::StringExecFns;
use crate::expression::{Builtin, Form, LispExpression};

verus! {

/// The bindings of symbols to expressions, held for a whole run.
#[derive(Clone, Debug)]
pub struct LispEnvironment {
    data: Vec<(String, LispExpression)>,
}

/// The value bound to `name` by the first entry of that name.
pub open spec fn lookup(entries: Seq<(String, LispExpression)>, name: Seq<char>) -> Option<Form>
    decreases entries.len(),
{
    if entries.len() == 0 {
        None
    } else if entries[0].0@ == name {
        Some(entries[0].1@)
    } else {
        lookup(entries.drop_first(), name)
    }
}

impl View for LispEnvironment {
    type V = Map<Seq<char>, Form>;

    closed spec fn view(&self) -> Map<Seq<char>, Form> {
        Map::new(
            |name: Seq<char>| lookup(self.data@, name) is Some,
            |name: Seq<char>| lookup(self.data@, name)->0,
        )
    }
}

/// The name of the sum.
pub open spec fn plus_name() -> Seq<char> {
    seq!['+']
}

/// The name of the difference.
pub open spec fn minus_name() -> Seq<char> {
    seq!['-']
}

/// The bindings of a fresh environment: the native functions under their names.
pub open spec fn builtins() -> Map<Seq<char>, Form> {
    Map::<Seq<char>, Form>::empty().insert(plus_name(), Form::Function(Builtin::Add)).insert(
        minus_name(),
        Form::Function(Builtin::Subtract),
    )
}

impl LispEnvironment {
    /// The expression bound to `name`, if there is one.
    pub fn get(&self, name: &str) -> (bound: Option<&LispExpression>)
        ensures
            match bound {
                Some(value) => self@.contains_key(name@) && value@ == self@[name@],
                None => !self@.contains_key(name@),
            },
    {
        let mut i: usize = 0;
        assert(self.data@.skip(0) == self.data@);
        while i < self.data.len()
            invariant
                i <= self.data.len(),
                lookup(self.data@, name@) == lookup(self.data@.skip(i as int), name@),
            decreases self.data.len() - i,
        {
            let key = self.data[i].0.as_str();
            let ghost rest = self.data@.skip(i as int);
            assert(rest[0] == self.data@[i as int]);
            if same_text(key, name) {
                return Some(&self.data[i].1);
            }
            assert(rest.drop_first() == self.data@.skip(i + 1));
            i += 1;
        }
        None
    }
}

/// Whether two strings hold the same text.
fn same_text(a: &str, b: &str) -> (r: bool)
    ensures
        r == (a@ == b@),
{
    let x = String::from_str(a);
    let y = String::from_str(b);
    x == y
}

/// A fresh environment: `+` and `-`, and nothing else.
pub fn as_environment() -> (environment: LispEnvironment)
    ensures
        environment@ == builtins(),
{
    let mut data: Vec<(String, LispExpression)> = Vec::new();
    data.push((String::from_str("+"), LispExpression::Function(Builtin::Add)));
    data.push((String::from_str("-"), LispExpression::Function(Builtin::Subtract)));
    let environment = LispEnvironment { data };
    proof {
        reveal_strlit("+");
        reveal_strlit("-");
        assert("+"@ =~= plus_name());
        assert("-"@ =~= minus_name());
        let entries = environment.data@;
        let second = entries.drop_first();
        assert(second.drop_first().len() == 0);
        assert(second[0] == entries[1]);
        assert forall|name: Seq<char>|
            lookup(entries, name) == (if name == plus_name() {
                Some(Form::Function(Builtin::Add))
            } else if name == minus_name() {
                Some(Form::Function(Builtin::Subtract))
            } else {
                None
            }) by {
            reveal_with_fuel(lookup, 3);
        }
        assert(plus_name()[0] != minus_name()[0]);
        assert forall|name: Seq<char>|
            environment@.contains_key(name) == #[trigger] builtins().contains_key(name) by {
            assert(environment@.contains_key(name) == (lookup(entries, name) is Some));
        }
        assert forall|name: Seq<char>| #[trigger]
            builtins().contains_key(name) implies environment@[name] == builtins()[name] by {
            assert(environment@[name] == lookup(entries, name)->0);
        }
        assert(environment@ =~= builtins());
    }
    environment
}

} // verus!
