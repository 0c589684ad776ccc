use vstd::prelude::*;
use crate::error::LakeSinkError;

verus! {

/// The first sink, in start order, that ended on an error; none when all ended normally.
pub fn first_failure(outcomes: &Vec<Result<(), LakeSinkError>>) -> (r: Option<usize>)
    ensures
        r is None <==> forall|i: int| 0 <= i < outcomes@.len() ==> (#[trigger] outcomes@[i]) is Ok,
        r is Some ==> r->Some_0 < outcomes@.len() && outcomes@[r->Some_0 as int] is Err
            && forall|j: int| 0 <= j < r->Some_0 ==> (#[trigger] outcomes@[j]) is Ok,
{
    let mut i: usize = 0;
    while i < outcomes.len()
        invariant
            0 <= i <= outcomes@.len(),
            forall|j: int| 0 <= j < i ==> (#[trigger] outcomes@[j]) is Ok,
        decreases outcomes@.len() - i,
    {
        if outcomes[i].is_err() {
            return Some(i);
        }
        i = i + 1;
    }
    None
}

} // verus!
