//! Hash type identification: a verified core that compiles rule data, checks
//! it, matches a hash against every rule and renders the matching modes.

use vstd::prelude::*;

pub mod cli;
pub mod data;
pub mod laws;
pub mod matcher;
pub mod outside;
pub mod text;

verus! {

/// What Ruby's `String#chomp` leaves of `s`: one trailing record separator
/// (`"\r\n"`, `"\n"` or `"\r"`) is taken off, nothing else.
pub open spec fn chomped(s: Seq<char>) -> Seq<char> {
    if s.len() >= 2 && s[s.len() - 2] == '\r' && s[s.len() - 1] == '\n' {
        s.subrange(0, s.len() - 2)
    } else if s.len() >= 1 && (s[s.len() - 1] == '\n' || s[s.len() - 1] == '\r') {
        s.subrange(0, s.len() - 1)
    } else {
        s
    }
}

/// Ruby's default `String#chomp` removes one record separator.
pub fn ruby_chomp(input: &str) -> (r: String)
    ensures
        r@ == chomped(input@),
        // the result is the input less one separator, or the input itself
        r@.len() <= input@.len() <= r@.len() + 2,
        input@.subrange(0, r@.len() as int) == r@,
        r@.len() < input@.len() ==> input@.last() == '\n' || input@.last() == '\r',
        r@.len() + 2 == input@.len() ==> input@.subrange(r@.len() as int, input@.len() as int)
            == seq!['\r', '\n'],
{
    let n = input.unicode_len();
    let mut keep = n;
    if n >= 2 && input.get_char(n - 2) == '\r' && input.get_char(n - 1) == '\n' {
        keep = n - 2;
    } else if n >= 1 && (input.get_char(n - 1) == '\n' || input.get_char(n - 1) == '\r') {
        keep = n - 1;
    }
    let r = input.substring_char(0, keep).to_owned();
    assert(input@.subrange(0, n as int) =~= input@);
    r
}

} // verus!
