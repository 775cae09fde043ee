use vstd::prelude::*;

verus! {

/// A C or C++ `enum` type: the names of its variants.
#[derive(Debug)]
pub struct Enum {
    /// The names of the variants, in declaration order.
    pub variants: Vec<String>,
}

} // verus!
