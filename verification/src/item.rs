use vstd::prelude::*;

verus! {

/// The identifier of an item of the intermediate representation: the index
/// under which the context stores it.
#[derive(Clone, Copy, Debug, PartialEq, Eq, Structural, Hash)]
pub struct ItemId(pub usize);

} // verus!
