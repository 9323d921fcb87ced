use vstd::prelude::*;

verus! {

/// An empty string with room for `capacity` bytes
/// (`String::with_capacity`); the room is not part of the value.
#[verifier::external_body]
pub(crate) fn string_with_capacity(capacity: usize) -> (r: String)
    ensures
        r@ == Seq::<char>::empty(),
{
    String::with_capacity(capacity)
}

} // verus!
