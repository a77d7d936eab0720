//! Selector lookup: one poll tries the target's selectors in priority order
//! (primary first, then fallback) and takes the first match, so a fallback
//! hit is used without retrying the primary within the same poll.

use vstd::prelude::*;

verus! {

/// The first hit among the per-selector outcomes of one poll: the outcomes
/// stand in priority order, and the result is the lowest index that found an
/// element, with that element's token. `None` exactly when every selector
/// missed.
pub fn find_first(outcomes: &Vec<Option<u64>>) -> (r: Option<(usize, u64)>)
    ensures
        r matches Some(m) ==> {
            &&& m.0 < outcomes@.len()
            &&& outcomes@[m.0 as int] == Some(m.1)
            &&& forall|k: int| 0 <= k < m.0 ==> outcomes@[k] is None
        },
        r is None <==> forall|k: int| 0 <= k < outcomes@.len() ==> outcomes@[k] is None,
{
    let n = outcomes.len();
    for i in 0..n
        invariant
            n == outcomes@.len(),
            forall|k: int| 0 <= k < i ==> outcomes@[k] is None,
    {
        match outcomes[i] {
            Some(h) => {
                return Some((i, h));
            },
            None => {},
        }
    }
    None
}

} // verus!
