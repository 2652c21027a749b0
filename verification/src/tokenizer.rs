//! Splitting a line of text into tokens.

use vstd::prelude::*;

verus! {

/// The characters with Unicode's `White_Space` property.
pub open spec fn is_space(c: char) -> bool {
    let n = c as u32;
    ||| 0x09 <= n <= 0x0D
    ||| n == 0x20
    ||| n == 0x85
    ||| n == 0xA0
    ||| n == 0x1680
    ||| 0x2000 <= n <= 0x200A
    ||| n == 0x2028
    ||| n == 0x2029
    ||| n == 0x202F
    ||| n == 0x205F
    ||| n == 0x3000
}

/// An opening or a closing parenthesis.
pub open spec fn is_paren(c: char) -> bool {
    c == '(' || c == ')'
}

/// A character that belongs to an atom: neither white space nor a parenthesis.
pub open spec fn is_atom_char(c: char) -> bool {
    !is_space(c) && !is_paren(c)
}

/// The length of the longest prefix of `s` made of atom characters.
pub open spec fn atom_len(s: Seq<char>) -> nat
    decreases s.len(),
{
    if s.len() == 0 || !is_atom_char(s[0]) {
        0
    } else {
        1 + atom_len(s.drop_first())
    }
}

/// The tokens of a line: each parenthesis by itself, and each maximal run of
/// atom characters; white space separates and is dropped.
pub open spec fn tokens_of(s: Seq<char>) -> Seq<Seq<char>>
    decreases s.len(),
{
    if s.len() == 0 {
        Seq::empty()
    } else if is_space(s[0]) {
        tokens_of(s.drop_first())
    } else if is_paren(s[0]) {
        seq![seq![s[0]]] + tokens_of(s.drop_first())
    } else {
        let n = atom_len(s);
        if 0 < n <= s.len() {
            seq![s.take(n as int)] + tokens_of(s.skip(n as int))
        } else {
            Seq::empty()
        }
    }
}

/// The texts of a sequence of strings.
pub open spec fn texts(tokens: Seq<String>) -> Seq<Seq<char>> {
    Seq::new(tokens.len(), |i: int| tokens[i]@)
}

/// A prefix of `n` atom characters that ends the text, or is followed by
/// another kind of character, is the longest one.
pub proof fn lemma_atom_len(s: Seq<char>, n: nat)
    requires
        n <= s.len(),
        forall|k: int| 0 <= k < n ==> is_atom_char(#[trigger] s[k]),
        n == s.len() || !is_atom_char(s[n as int]),
    ensures
        atom_len(s) == n,
    decreases n,
{
    if n > 0 {
        let t = s.drop_first();
        assert forall|k: int| 0 <= k < n - 1 implies is_atom_char(#[trigger] t[k]) by {
            assert(t[k] == s[k + 1]);
        }
        lemma_atom_len(t, (n - 1) as nat);
    }
}

/// Whether `c` is white space.
pub fn is_whitespace(c: char) -> (r: bool)
    ensures
        r == is_space(c),
{
    let n: u32 = c as u32;
    (0x09 <= n && n <= 0x0D) || n == 0x20 || n == 0x85 || n == 0xA0 || n == 0x1680 || (0x2000 <= n
        && n <= 0x200A) || n == 0x2028 || n == 0x2029 || n == 0x202F || n == 0x205F || n == 0x3000
}

/// Splits a line into its tokens.
pub fn lisp_tokenize(expression: String) -> (tokens: Vec<String>)
    ensures
        texts(tokens@) == tokens_of(expression@),
{
    let text: &str = expression.as_str();
    let len: usize = text.unicode_len();
    let mut tokens: Vec<String> = Vec::new();
    let mut i: usize = 0;
    proof {
        assert(text@.skip(0) == text@);
        assert(texts(tokens@) + tokens_of(text@) == tokens_of(text@));
    }
    while i < len
        invariant
            i <= len,
            len == text@.len(),
            tokens_of(text@) == texts(tokens@) + tokens_of(text@.skip(i as int)),
        decreases len - i,
    {
        let ghost rest = text@.skip(i as int);
        let ghost before = texts(tokens@);
        let c = text.get_char(i);
        assert(rest[0] == c);
        if is_whitespace(c) {
            assert(rest.drop_first() == text@.skip(i + 1));
            i += 1;
        } else if c == '(' || c == ')' {
            assert(rest.drop_first() == text@.skip(i + 1));
            tokens.push(String::from_str(text.substring_char(i, i + 1)));
            assert(text@.subrange(i as int, i + 1) == seq![c]);
            assert(texts(tokens@) == before + seq![seq![c]]);
            i += 1;
        } else {
            let mut j: usize = i + 1;
            while j < len && !is_separator(text.get_char(j))
                invariant
                    i < j <= len,
                    len == text@.len(),
                    forall|k: int| i <= k < j ==> is_atom_char(#[trigger] text@[k]),
                decreases len - j,
            {
                j += 1;
            }
            proof {
                assert forall|k: int| 0 <= k < j - i implies is_atom_char(#[trigger] rest[k]) by {
                    assert(rest[k] == text@[i + k]);
                }
                lemma_atom_len(rest, (j - i) as nat);
                assert(rest.take(j - i) == text@.subrange(i as int, j as int));
                assert(rest.skip(j - i) == text@.skip(j as int));
            }
            tokens.push(String::from_str(text.substring_char(i, j)));
            assert(texts(tokens@) == before + seq![text@.subrange(i as int, j as int)]);
            i = j;
        }
    }
    assert(texts(tokens@) + Seq::<Seq<char>>::empty() == texts(tokens@));
    tokens
}

/// Whether `c` ends an atom.
fn is_separator(c: char) -> (r: bool)
    ensures
        r == !is_atom_char(c),
{
    is_whitespace(c) || c == '(' || c == ')'
}

} // verus!
