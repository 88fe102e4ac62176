//! Small helpers on vectors.
use vstd::prelude::*;

verus! {

/// The same items in the opposite order. Popping from the outcome hands the items out from the
/// first to the last.
pub fn reversed<T>(items: Vec<T>) -> (out: Vec<T>)
    ensures
        out@.len() == items@.len(),
        forall|j: int| 0 <= j < out@.len() ==> out@[j] == items@[items@.len() - 1 - j],
{
    let ghost all = items@;
    let mut rest = items;
    let mut out: Vec<T> = Vec::new();
    while rest.len() > 0
        invariant
            rest@.len() + out@.len() == all.len(),
            forall|j: int| 0 <= j < rest@.len() ==> rest@[j] == all[j],
            forall|j: int| 0 <= j < out@.len() ==> out@[j] == all[all.len() - 1 - j],
        decreases rest.len(),
    {
        let item = rest.pop().unwrap();
        out.push(item);
    }
    out
}

} // verus!
