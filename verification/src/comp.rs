use vstd::prelude::*;
use crate::layout::Layout;
use crate::ty::RUST_DERIVE_IN_ARRAY_LIMIT;

verus! {

/// A compound type (a class, struct or union), as the type queries see it:
/// the answers that it gives about itself.
#[derive(Debug)]
pub struct CompInfo {
    /// The layout that the compound type computes for itself, if any.
    pub layout: Option<Layout>,
    /// Whether it is a union.
    pub is_union: bool,
    /// Whether `Debug` can be derived for all of its members: its bases, its
    /// template arguments, its fields and the template it instantiates.
    pub members_can_derive_debug: bool,
    /// Whether `Copy` can be derived for it.
    pub can_derive_copy: bool,
    /// Whether it has a vtable.
    pub has_vtable: bool,
    /// Whether it has a destructor.
    pub has_destructor: bool,
    /// Whether it has no members, so that it needs a dummy field.
    pub is_unsized: bool,
    /// The names of the template parameters that its signature mentions.
    pub signature_named_types: Vec<String>,
}

impl CompInfo {
    /// Whether `name` is one of the template parameters that the signature
    /// of this compound type mentions.
    pub open spec fn spec_signature_contains(&self, name: Seq<char>) -> bool {
        exists|k: int|
            0 <= k < self.signature_named_types@.len()
                && (#[trigger] self.signature_named_types@[k])@ == name
    }

    /// Whether `Debug` can be derived for this compound type, where the type
    /// that it is the compound of has the layout `layout`: for a union, where
    /// that layout (none taken as size and alignment 0) holds at most
    /// `RUST_DERIVE_IN_ARRAY_LIMIT` items of its alignment; for a struct or
    /// class, where all its members can derive it.
    pub open spec fn spec_can_derive_debug(&self, layout: Option<Layout>) -> bool {
        if self.is_union {
            let l = match layout {
                Some(l) => l,
                None => Layout { size: 0, align: 0, packed: false },
            };
            let divisor: int = if l.align > 1 {
                l.align as int
            } else {
                1
            };
            l.size as int / divisor <= RUST_DERIVE_IN_ARRAY_LIMIT
        } else {
            self.members_can_derive_debug
        }
    }

    /// Whether `Debug` can be derived for this compound type, where the type
    /// that it is the compound of has the layout `layout`.
    pub fn can_derive_debug(&self, layout: Option<Layout>) -> (r: bool)
        ensures
            r == self.spec_can_derive_debug(layout),
    {
        if self.is_union {
            let l = match layout {
                Some(l) => l,
                None => Layout::new(0, 0),
            };
            let divisor = if l.align > 1 {
                l.align
            } else {
                1
            };
            l.size / divisor <= RUST_DERIVE_IN_ARRAY_LIMIT
        } else {
            self.members_can_derive_debug
        }
    }

    /// The layout of this compound type, if it has one of its own.
    pub fn layout(&self) -> (r: Option<Layout>)
        ensures
            r == self.layout,
    {
        self.layout
    }

    /// Whether the signature of this compound type mentions the template
    /// parameter called `name`.
    pub fn signature_contains_named_type(&self, name: &String) -> (r: bool)
        ensures
            r == self.spec_signature_contains(name@),
    {
        let n = self.signature_named_types.len();
        let mut i: usize = 0;
        while i < n
            invariant
                n == self.signature_named_types@.len(),
                i <= n,
                forall|k: int| 0 <= k < i ==> (#[trigger] self.signature_named_types@[k])@ != name@,
            decreases n - i,
        {
            if self.signature_named_types[i] == *name {
                return true;
            }
            i = i + 1;
        }
        false
    }
}

} // verus!
