use vstd::prelude::*;
use crate::item::ItemId;

verus! {

/// The signature of a function type: its return type and its arguments,
/// each with an optional name.
#[derive(Debug)]
pub struct FunctionSig {
    /// The return type.
    pub return_type: ItemId,
    /// The arguments, in order: an optional name and a type.
    pub argument_types: Vec<(Option<String>, ItemId)>,
}

impl FunctionSig {
    /// The type that the function returns.
    pub fn return_type(&self) -> (r: ItemId)
        ensures
            r == self.return_type,
    {
        self.return_type
    }
}

} // verus!
