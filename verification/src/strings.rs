use vstd::prelude::*;

verus! {

/// Compares two strings character by character.
pub fn str_equals(a: &str, b: &str) -> (equal: bool)
    ensures
        equal == (a@ == b@),
{
    let n = a.unicode_len();
    let m = b.unicode_len();
    if n != m {
        return false;
    }
    for i in 0..n
        invariant
            n == a@.len(),
            m == b@.len(),
            n == m,
            forall|j: int| 0 <= j < i ==> a@[j] == b@[j],
    {
        if a.get_char(i) != b.get_char(i) {
            return false;
        }
    }
    assert(a@ =~= b@);
    true
}

} // verus!
