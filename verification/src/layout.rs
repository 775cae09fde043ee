use vstd::prelude::*;

verus! {

/// A type's layout: its size and alignment in bytes, and whether it is packed.
#[derive(Clone, Copy, Debug, PartialEq, Eq, Structural)]
pub struct Layout {
    /// The size of the type, in bytes.
    pub size: usize,
    /// The alignment of the type, in bytes.
    pub align: usize,
    /// Whether the type is packed.
    pub packed: bool,
}

impl Layout {
    /// Creates an unpacked layout of the given size and alignment.
    pub fn new(size: usize, align: usize) -> (l: Layout)
        ensures
            l == (Layout { size, align, packed: false }),
    {
        Layout { size, align, packed: false }
    }
}

} // verus!
