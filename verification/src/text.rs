//! Small verified string helpers used throughout the crate.

use vstd::prelude::*;
use vstd::string::StrSliceExecFns;

verus! {

/// Character-wise string equality, specified over the string views.
pub fn str_eq(a: &str, b: &str) -> (r: bool)
    ensures
        r == (a@ == b@),
{
    let a_len = a.unicode_len();
    let b_len = b.unicode_len();
    if a_len != b_len {
        return false;
    }
    let mut i: usize = 0;
    while i < a_len
        invariant
            a_len == a@.len(),
            b_len == b@.len(),
            a_len == b_len,
            i <= a_len,
            forall|j: int| 0 <= j < i ==> a@[j] == b@[j],
        decreases a_len - i,
    {
        let ca = a.get_char(i);
        let cb = b.get_char(i);
        if ca != cb {
            assert(a@ != b@);
            return false;
        }
        i = i + 1;
    }
    proof {
        assert(a@ =~= b@);
    }
    true
}

/// A key marks a backing-store operator when its first character is `$`.
pub open spec fn is_operator_key(k: Seq<char>) -> bool {
    k.len() > 0 && k[0] == '$'
}

/// Executable check matching [`is_operator_key`].
pub fn key_is_operator(key: &str) -> (r: bool)
    ensures
        r == is_operator_key(key@),
{
    let n = key.unicode_len();
    if n == 0 {
        false
    } else {
        key.get_char(0) == '$'
    }
}

} // verus!
