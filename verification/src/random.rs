//! Random bytes from the operating system, through `getrandom`.

use vstd::prelude::*;

verus! {

#[verifier::external_type_specification]
#[verifier::external_body]
pub struct ExGetrandomError(getrandom::Error);

/// `getrandom::fill`: fills `dest` with random bytes, or reports an error
/// (the crate documents no guarantee about `dest` then). Nothing is stated of
/// the bytes, which come from the operating system; only the length stays.
#[verifier::external_body]
pub(crate) fn fill_random(dest: &mut [u8]) -> (r: Result<(), getrandom::Error>)
    ensures
        final(dest)@.len() == old(dest)@.len(),
{
    getrandom::fill(dest)
}

} // verus!
