//! Copies of vectors.

use vstd::prelude::*;

verus! {

/// A copy of a vector of plain values.
pub fn copy_of<T: Copy>(source: &Vec<T>) -> (copy: Vec<T>)
    ensures
        copy@ == source@,
{
    let mut copy: Vec<T> = Vec::with_capacity(source.len());
    let mut k: usize = 0;
    while k < source.len()
        invariant
            k <= source.len(),
            copy@ == source@.subrange(0, k as int),
        decreases source.len() - k,
    {
        copy.push(source[k]);
        k += 1;
        assert(copy@ =~= source@.subrange(0, k as int));
    }
    assert(source@.subrange(0, source.len() as int) =~= source@);
    copy
}

} // verus!
