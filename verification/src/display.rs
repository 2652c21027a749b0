//! Printing an expression.

use vstd::prelude::*;
use vstd::string::StringExecFns;
use crate::expression::{forms, lemma_list_view, Form, LispExpression};
use crate::numbers::{is_printer, printer_of, show_number};

verus! {

/// The text of an expression: a symbol's name, a number as `show` prints
/// it, and a list's elements between parentheses, with commas between them.
pub open spec fn text_of(e: Form, show: spec_fn(u64) -> Seq<char>) -> Seq<char>
    decreases e, 0nat,
{
    match e {
        Form::Symbol(name) => name,
        Form::Number(bits) => show(bits),
        Form::List(items) => seq!['('] + joined(items, items.len(), show) + seq![')'],
        Form::Function(_) => "Function {}"@,
    }
}

/// The texts of the first `n` of `items`, with a comma between each two.
pub open spec fn joined(items: Seq<Form>, n: nat, show: spec_fn(u64) -> Seq<char>) -> Seq<char>
    decreases items, n,
{
    if n == 0 || n > items.len() {
        Seq::empty()
    } else if n == 1 {
        text_of(items[0], show)
    } else {
        joined(items, (n - 1) as nat, show) + seq![','] + text_of(items[n - 1], show)
    }
}

impl LispExpression {
    /// Prints the expression, each number as `show` prints it.
    pub fn to_text<D: Fn(u64) -> String>(&self, show: &D) -> (text: String)
        requires
            is_printer(show),
        ensures
            text@ == text_of(self@, printer_of(show)),
        decreases self,
    {
        match self {
            LispExpression::Symbol(name) => name.clone(),
            LispExpression::Number(bits) => show_number(show, *bits),
            LispExpression::List(list) => {
                proof {
                    lemma_list_view(*list);
                    reveal_strlit("(");
                    reveal_strlit(",");
                    reveal_strlit(")");
                    assert("("@ =~= seq!['(']);
                    assert(","@ =~= seq![',']);
                    assert(")"@ =~= seq![')']);
                }
                let mut text = String::from_str("(");
                let mut i: usize = 0;
                let ghost print = printer_of(show);
                assert(text@ =~= seq!['('] + joined(forms(list@), 0, print));
                while i < list.len()
                    invariant
                        is_printer(show),
                        self->List_0 == *list,
                        self is List,
                        i <= list.len(),
                        ","@ == seq![','],
                        print == printer_of(show),
                        text@ == seq!['('] + joined(forms(list@), i as nat, print),
                    decreases list.len() - i,
                {
                    proof {
                        vstd::std_specs::vec::axiom_vec_index_decreases(*list, i as int);
                    }
                    let ghost before = joined(forms(list@), i as nat, print);
                    if i > 0 {
                        text.append(",");
                    }
                    let item = list[i].to_text(show);
                    text.append(item.as_str());
                    proof {
                        let after = joined(forms(list@), (i + 1) as nat, print);
                        if i == 0 {
                            assert(before =~= Seq::<char>::empty());
                            assert(after == item@);
                            assert(text@ =~= seq!['('] + after);
                        } else {
                            assert(after == before + seq![','] + item@);
                            assert(text@ =~= seq!['('] + after);
                        }
                    }
                    i += 1;
                }
                text.append(")");
                text
            },
            LispExpression::Function(_) => String::from_str("Function {}"),
        }
    }
}

} // verus!
