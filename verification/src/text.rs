//! Small text helpers for queries, clipboard payloads and export paths.

use vstd::prelude::*;
use vstd::string::StrSliceExecFns;

verus! {

/// Relies on String::push: appends one character at the end.
#[verifier::external_body]
pub(crate) fn push_char(s: &mut String, c: char)
    ensures
        final(s)@ == old(s)@.push(c),
{
    s.push(c);
}

/// Relies on String::pop: removes and returns the last character, if any.
#[verifier::external_body]
pub(crate) fn pop_char(s: &mut String) -> (r: Option<char>)
    ensures
        old(s)@.len() == 0 ==> final(s)@ == old(s)@ && r is None,
        old(s)@.len() > 0 ==> final(s)@ == old(s)@.drop_last() && r == Some(old(s)@.last()),
{
    s.pop()
}

/// `s` with every space turned into an underscore.
pub open spec fn spec_replace_spaces(s: Seq<char>) -> Seq<char> {
    Seq::new(
        s.len(),
        |i: int|
            if s[i] == ' ' {
                '_'
            } else {
                s[i]
            },
    )
}

pub fn replace_spaces(s: &String) -> (r: String)
    ensures
        r@ == spec_replace_spaces(s@),
{
    let n = s.as_str().unicode_len();
    let mut r = String::new();
    let mut i: usize = 0;
    while i < n
        invariant
            n == s@.len(),
            i <= n,
            r@.len() == i,
            forall|k: int| 0 <= k < i ==> r@[k] == spec_replace_spaces(s@)[k],
        decreases n - i,
    {
        let c = s.as_str().get_char(i);
        if c == ' ' {
            push_char(&mut r, '_');
        } else {
            push_char(&mut r, c);
        }
        i += 1;
    }
    proof {
        assert(r@ =~= spec_replace_spaces(s@));
    }
    r
}

} // verus!
