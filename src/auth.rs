use vstd::prelude::*;
use crate::types::{Address, Error};

verus! {

/// The authorization gate: `caller` may act only if it is one of the `allowed` principals.
pub fn authorize(caller: Address, allowed: &Vec<Address>) -> (r: Result<(), Error>)
    ensures
        r == (if allowed@.contains(caller) {
            Ok::<(), Error>(())
        } else {
            Err::<(), Error>(Error::Unauthorized)
        }),
{
    let mut i: usize = 0;
    while i < allowed.len()
        invariant
            0 <= i <= allowed@.len(),
            forall|j: int| 0 <= j < i ==> allowed@[j] != caller,
        decreases allowed@.len() - i,
    {
        if allowed[i] == caller {
            return Ok(());
        }
        i = i + 1;
    }
    Err(Error::Unauthorized)
}

} // verus!
