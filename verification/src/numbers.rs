//! The host's operations on numbers.
//!
//! A number is a 64-bit pattern to the library. The host supplies four
//! operations on such patterns: one reads a token as a number, or says that
//! it is none; two combine a pair of numbers, for the sum and the difference;
//! one prints a number. Each has to be a function: the same arguments give
//! the same result, and a token's or a text's characters alone count.

use vstd::prelude::*;

verus! {

/// `read` accepts every token and reads equal texts alike.
pub open spec fn is_reader<R: Fn(&str) -> Option<u64>>(read: &R) -> bool {
    &&& forall|s: &str| #[trigger] read.requires((s,))
    &&& forall|s: &str, t: &str, a: Option<u64>, b: Option<u64>|
        s@ == t@ && #[trigger] read.ensures((s,), a) && #[trigger] read.ensures((t,), b) ==> a == b
}

/// `read` may give `r` for a token of this text.
pub open spec fn reads_as<R: Fn(&str) -> Option<u64>>(
    read: &R,
    token: Seq<char>,
    r: Option<u64>,
) -> bool {
    exists|s: &str| s@ == token && #[trigger] read.ensures((s,), r)
}

/// What `read` makes of a token: its number, or `None` where it is no number.
pub open spec fn reading<R: Fn(&str) -> Option<u64>>(read: &R, token: Seq<char>) -> Option<u64> {
    choose|r: Option<u64>| reads_as(read, token, r)
}

/// `f` accepts every pair and gives one result for each.
pub open spec fn is_operation<F: Fn(u64, u64) -> u64>(f: &F) -> bool {
    &&& forall|a: u64, b: u64| #[trigger] f.requires((a, b))
    &&& forall|a: u64, b: u64, r: u64, s: u64|
        #[trigger] f.ensures((a, b), r) && #[trigger] f.ensures((a, b), s) ==> r == s
}

/// What `f` gives for `a` and `b`.
pub open spec fn result_of<F: Fn(u64, u64) -> u64>(f: &F, a: u64, b: u64) -> u64 {
    choose|r: u64| f.ensures((a, b), r)
}

/// The function that `f` computes.
pub open spec fn operation_of<F: Fn(u64, u64) -> u64>(f: &F) -> spec_fn(u64, u64) -> u64 {
    |a: u64, b: u64| result_of(f, a, b)
}

/// The function that `read` computes, from a token's text.
pub open spec fn reader_of<R: Fn(&str) -> Option<u64>>(read: &R) -> spec_fn(Seq<char>) -> Option<
    u64,
> {
    |token: Seq<char>| reading(read, token)
}

/// The function that `show` computes, to a number's text.
pub open spec fn printer_of<D: Fn(u64) -> String>(show: &D) -> spec_fn(u64) -> Seq<char> {
    |bits: u64| shown(show, bits)
}

/// `xs` folded from the left with `op`, starting at `start`.
pub open spec fn total(op: spec_fn(u64, u64) -> u64, start: u64, xs: Seq<u64>) -> u64
    decreases xs.len(),
{
    if xs.len() == 0 {
        start
    } else {
        op(total(op, start, xs.drop_last()), xs.last())
    }
}

/// `show` accepts every number and prints each in one way.
pub open spec fn is_printer<D: Fn(u64) -> String>(show: &D) -> bool {
    &&& forall|bits: u64| #[trigger] show.requires((bits,))
    &&& forall|bits: u64, r: String, s: String|
        #[trigger] show.ensures((bits,), r) && #[trigger] show.ensures((bits,), s) ==> r@ == s@
}

/// `show` may print `text` for a number.
pub open spec fn shows_as<D: Fn(u64) -> String>(show: &D, bits: u64, text: Seq<char>) -> bool {
    exists|r: String| r@ == text && #[trigger] show.ensures((bits,), r)
}

/// The text that `show` prints for a number.
pub open spec fn shown<D: Fn(u64) -> String>(show: &D, bits: u64) -> Seq<char> {
    choose|text: Seq<char>| shows_as(show, bits, text)
}

/// Reads a token as a number.
pub fn read_number<R: Fn(&str) -> Option<u64>>(token: &str, read: &R) -> (r: Option<u64>)
    requires
        is_reader(read),
    ensures
        read.ensures((token,), r),
        r == reader_of(read)(token@),
{
    let r = read(token);
    proof {
        let w = reading(read, token@);
        assert(reads_as(read, token@, r));
        assert(reads_as(read, token@, w));
        let s = choose|s: &str| s@ == token@ && #[trigger] read.ensures((s,), w);
        assert(read.ensures((s,), w) && read.ensures((token,), r));
    }
    r
}

/// Applies an operation to a pair of numbers.
pub fn combine<F: Fn(u64, u64) -> u64>(f: &F, a: u64, b: u64) -> (r: u64)
    requires
        is_operation(f),
    ensures
        f.ensures((a, b), r),
        r == operation_of(f)(a, b),
{
    let r = f(a, b);
    assert(f.ensures((a, b), r) && f.ensures((a, b), result_of(f, a, b)));
    r
}

/// Prints a number.
pub fn show_number<D: Fn(u64) -> String>(show: &D, bits: u64) -> (r: String)
    requires
        is_printer(show),
    ensures
        show.ensures((bits,), r),
        r@ == printer_of(show)(bits),
{
    let r = show(bits);
    proof {
        let w = shown(show, bits);
        assert(shows_as(show, bits, r@));
        assert(shows_as(show, bits, w));
        let t = choose|t: String| t@ == w && #[trigger] show.ensures((bits,), t);
        assert(show.ensures((bits,), t) && show.ensures((bits,), r));
    }
    r
}

} // verus!
