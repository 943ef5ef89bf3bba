//! Taking the items of a vector out in order.

use vstd::prelude::*;

verus! {

/// The same items in the opposite order, so that `pop` hands them out first
/// to last.
pub(crate) fn reversed<T>(items: Vec<T>) -> (rev: Vec<T>)
    ensures
        rev@ == items@.reverse(),
{
    let mut items = items;
    let ghost all = items@;
    let mut rev: Vec<T> = Vec::new();
    while items.len() > 0
        invariant
            items@ == all.take(items.len() as int),
            rev.len() + items.len() == all.len(),
            forall|j: int| 0 <= j < rev.len() ==> rev@[j] == all[all.len() - 1 - j],
        decreases items.len(),
    {
        let item = items.pop().unwrap();
        rev.push(item);
    }
    rev
}

} // verus!
