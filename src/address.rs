//! The current public address, as the discovery endpoint reports it.

use vstd::prelude::*;
use vstd::string::*;

verus! {

/// `s` with every newline taken out.
pub open spec fn without_newlines(s: Seq<char>) -> Seq<char>
    decreases s.len(),
{
    if s.len() == 0 {
        Seq::empty()
    } else if s.last() == '\n' {
        without_newlines(s.drop_last())
    } else {
        without_newlines(s.drop_last()).push(s.last())
    }
}

/// The address in the body of the discovery endpoint's answer: the body
/// with its newlines taken out.
pub fn address_from_response(body: &str) -> (r: String)
    ensures
        r@ == without_newlines(body@),
{
    let n = body.unicode_len();
    let mut out = String::new();
    let mut i: usize = 0;
    while i < n
        invariant
            i <= n == body@.len(),
            out@ == without_newlines(body@.subrange(0, i as int)),
        decreases n - i,
    {
        assert(body@.subrange(0, i + 1).drop_last() =~= body@.subrange(0, i as int));
        if body.get_char(i) != '\n' {
            let c = body.substring_char(i, i + 1);
            assert(c@ =~= seq![body@[i as int]]);
            out.append(c);
        }
        i = i + 1;
    }
    assert(body@.subrange(0, n as int) =~= body@);
    out
}

} // verus!
