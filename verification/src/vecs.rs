//! Moving the items of a vector out in their order.

use vstd::prelude::*;

verus! {

/// The items of `v` in the opposite order, so that `pop` hands them out
/// first to last.
pub fn reversed<T>(v: Vec<T>) -> (r: Vec<T>)
    ensures
        r@ == v@.reverse(),
{
    let ghost all = v@;
    let mut rest = v;
    let mut out: Vec<T> = Vec::new();
    while rest.len() > 0
        invariant
            rest@.len() + out@.len() == all.len(),
            rest@ == all.take(rest@.len() as int),
            forall|i: int| 0 <= i < out@.len() ==> out@[i] == all[all.len() - 1 - i],
        decreases rest@.len(),
    {
        let last = rest.pop().unwrap();
        out.push(last);
        proof {
            assert(rest@ =~= all.take(rest@.len() as int));
        }
    }
    proof {
        assert(out@ =~= all.reverse());
    }
    out
}

} // verus!
