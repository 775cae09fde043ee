use vstd::prelude::*;
use crate::clang::Cursor;
use crate::item::ItemId;

verus! {

/// Why an item could not be parsed from a libclang type or cursor.
#[derive(Clone, Copy, Debug, PartialEq, Eq, Structural)]
pub enum ParseError {
    /// Parse the children of the cursor instead.
    Recurse,
    /// Skip this item and go on with the next.
    Continue,
}

/// What parsing a libclang type or cursor gives.
#[derive(Debug)]
pub enum ParseResult<T> {
    /// The item was already known, under this identifier.
    AlreadyResolved(ItemId),
    /// A new item, with the cursor that declares it, if any.
    New(T, Option<Cursor>),
}

} // verus!
