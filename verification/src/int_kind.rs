use vstd::prelude::*;

verus! {

/// The kinds of integer types, `bool` and `char` included.
#[derive(Clone, Copy, Debug, PartialEq, Eq, Structural)]
pub enum IntKind {
    /// A `bool`.
    Bool,
    /// A `char`.
    Char,
    /// An `unsigned char`.
    UChar,
    /// A `short`.
    Short,
    /// An `unsigned short`.
    UShort,
    /// An `int`.
    Int,
    /// An `unsigned int`.
    UInt,
    /// A `long`.
    Long,
    /// An `unsigned long`.
    ULong,
    /// A `long long`.
    LongLong,
    /// An `unsigned long long`.
    ULongLong,
    /// A `char16_t`.
    U16,
    /// A `char32_t`.
    U32,
}

} // verus!
