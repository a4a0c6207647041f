//! Root-domain extraction from fully qualified domain names.

use vstd::prelude::*;
use vstd::string::*;

use crate::error::ReconcileError;

verus! {

/// Index of the last '.' in `s[0..end)`, or -1 when there is none.
pub open spec fn last_dot_before(s: Seq<char>, end: int) -> int
    decreases end,
{
    if end <= 0 {
        -1
    } else if s[end - 1] == '.' {
        end - 1
    } else {
        last_dot_before(s, end - 1)
    }
}

/// A name with at least two dot-separated labels holds at least one dot.
pub open spec fn has_two_labels(s: Seq<char>) -> bool {
    last_dot_before(s, s.len() as int) >= 0
}

/// Where the root domain starts: just after the second-to-last dot, or at
/// the start of the name when it has only one dot.
pub open spec fn root_start(s: Seq<char>) -> int {
    last_dot_before(s, last_dot_before(s, s.len() as int)) + 1
}

/// The last two labels of `s`, with the dot between them.
pub open spec fn root_of(s: Seq<char>) -> Seq<char> {
    s.subrange(root_start(s), s.len() as int)
}

/// No '.' occurs in `s`: `s` is a single label.
pub open spec fn is_label(s: Seq<char>) -> bool {
    forall|i: int| 0 <= i < s.len() ==> s[i] != '.'
}

proof fn lemma_last_dot_before(s: Seq<char>, end: int)
    requires
        0 <= end <= s.len(),
    ensures
        -1 <= last_dot_before(s, end) < end,
        last_dot_before(s, end) >= 0 ==> s[last_dot_before(s, end)] == '.',
        forall|j: int| last_dot_before(s, end) < j < end ==> s[j] != '.',
    decreases end,
{
    if end > 0 && s[end - 1] != '.' {
        lemma_last_dot_before(s, end - 1);
    }
}

/// Finds the last '.' before `end`.
fn find_last_dot(s: &str, end: usize) -> (r: Option<usize>)
    requires
        end <= s@.len(),
    ensures
        match r {
            Some(k) => k as int == last_dot_before(s@, end as int),
            None => last_dot_before(s@, end as int) == -1,
        },
{
    let mut i: usize = end;
    while i > 0
        invariant
            i <= end <= s@.len(),
            last_dot_before(s@, i as int) == last_dot_before(s@, end as int),
        decreases i,
    {
        if s.get_char(i - 1) == '.' {
            return Some(i - 1);
        }
        i = i - 1;
    }
    None
}

/// The registrable root of `domain`: its last two dot-separated labels,
/// joined by one dot (`example.com` for `foo.bar.example.com`). A name with
/// fewer than two labels is refused. No normalisation is made.
pub fn get_root_domain(domain: &str) -> (r: Result<String, ReconcileError>)
    ensures
        r is Ok <==> has_two_labels(domain@),
        r matches Ok(root) ==> root@ == root_of(domain@),
        r is Err ==> r == Err::<String, ReconcileError>(ReconcileError::InvalidDomain),
{
    let n = domain.unicode_len();
    proof {
        lemma_last_dot_before(domain@, n as int);
    }
    match find_last_dot(domain, n) {
        None => Err(ReconcileError::InvalidDomain),
        Some(tld_dot) => {
            proof {
                lemma_last_dot_before(domain@, tld_dot as int);
            }
            let start: usize = match find_last_dot(domain, tld_dot) {
                Some(k) => k + 1,
                None => 0,
            };
            Ok(String::from_str(domain.substring_char(start, n)))
        },
    }
}

/// The root of a name with two or more labels is its second-level label, a
/// dot and its top-level label, and it ends the name right after a dot or
/// the name's start: it is the last two labels joined by a single dot.
pub proof fn lemma_root_is_last_two_labels(s: Seq<char>)
    requires
        has_two_labels(s),
    ensures
        exists|sld: Seq<char>, tld: Seq<char>|
            #![trigger sld + seq!['.'] + tld]
            is_label(sld) && is_label(tld) && root_of(s) == sld + seq!['.'] + tld,
        s =~= s.subrange(0, root_start(s)) + root_of(s),
        root_start(s) == 0 || s[root_start(s) - 1] == '.',
{
    let n = s.len() as int;
    let d = last_dot_before(s, n);
    lemma_last_dot_before(s, n);
    lemma_last_dot_before(s, d);
    let st = root_start(s);
    let sld = s.subrange(st, d);
    let tld = s.subrange(d + 1, n);
    assert(root_of(s) =~= sld + seq!['.'] + tld);
}

} // verus!
