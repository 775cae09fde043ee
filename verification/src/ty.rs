//! Everything related to types in the intermediate representation.

use vstd::prelude::*;
use crate::clang::{ClangType, ClangTypeKind, Cursor, CursorKind};
use crate::parse::ParseError;
use crate::comp::CompInfo;
use crate::context::BindgenContext;
use crate::enum_ty::Enum;
use crate::function::FunctionSig;
use crate::int_kind::IntKind;
use crate::item::ItemId;
use crate::layout::Layout;

verus! {

/// The base representation of a type.
///
/// A type has an optional name, which if present cannot be empty, a `layout`
/// (size, alignment and packedness) if known, a `Kind`, which determines which
/// kind of type it is, and whether the type is const.
#[derive(Debug)]
pub struct Type {
    /// The name of the type, or None if it was an unnamed struct or union.
    name: Option<String>,
    /// The layout of the type, if known.
    layout: Option<Layout>,
    /// The inner kind of the type
    kind: TypeKind,
    /// Whether this type is const-qualified.
    is_const: bool,
}

/// The maximum number of items in an array for which Rust implements common
/// traits, and so if we have a type containing an array with more than this
/// many items, we won't be able to derive common traits on that type.
pub const RUST_DERIVE_IN_ARRAY_LIMIT: usize = 32;

/// The kind of float this type represents.
#[derive(Debug, Copy, Clone, PartialEq, Eq, Structural)]
pub enum FloatKind {
    /// A `float`.
    Float,
    /// A `double`.
    Double,
    /// A `long double`.
    LongDouble,
}

/// The different kinds of types that we can parse.
#[derive(Debug)]
pub enum TypeKind {
    /// The void type.
    Void,
    /// The `nullptr_t` type.
    NullPtr,
    /// A compound type, that is, a class, struct, or union.
    Comp(CompInfo),
    /// An integer type, of a given kind. `bool` and `char` are also considered
    /// integers.
    Int(IntKind),
    /// A floating point type.
    Float(FloatKind),
    /// A type alias, with a name, that points to another type.
    Alias(String, ItemId),
    /// A templated alias, pointing to an inner `Alias` type, with template
    /// parameters.
    TemplateAlias(ItemId, Vec<ItemId>),
    /// An array of a type and a length.
    Array(ItemId, usize),
    /// A function type, with a given signature.
    Function(FunctionSig),
    /// An `enum` type.
    Enum(Enum),
    /// A pointer to a type.
    Pointer(ItemId),
    /// A pointer to an Apple block.
    BlockPointer,
    /// A reference to a type, as in: int& foo().
    Reference(ItemId),
    /// A reference to a template, with different template parameter names.
    TemplateRef(ItemId, Vec<ItemId>),
    /// A reference to a yet-to-resolve type. This stores the clang type and
    /// cursor, and postpones its resolution; these are mapped to
    /// `ResolvedTypeRef` once parsing is over.
    UnresolvedTypeRef(ClangType, Option<Cursor>, Option<ItemId>),
    /// An indirection to another type.
    ResolvedTypeRef(ItemId),
    /// A named type, that is, a template parameter, with an optional default
    /// type.
    Named(String, Option<ItemId>),
}

impl Type {
    /// The name of the type.
    pub closed spec fn spec_name(self) -> Option<String> {
        self.name
    }

    /// The layout recorded for the type itself.
    pub closed spec fn spec_layout(self) -> Option<Layout> {
        self.layout
    }

    /// The kind of the type.
    pub closed spec fn spec_kind(self) -> TypeKind {
        self.kind
    }

    /// Whether the type is const-qualified.
    pub closed spec fn spec_is_const(self) -> bool {
        self.is_const
    }

    /// Every item that this type refers to, and that some query follows, has
    /// an identifier below `bound`.
    pub open spec fn refs_below(self, bound: int) -> bool {
        match self.spec_kind() {
            TypeKind::Alias(_, t) => t.0 < bound,
            TypeKind::ResolvedTypeRef(t) => t.0 < bound,
            TypeKind::Pointer(t) => t.0 < bound,
            TypeKind::Array(t, _) => t.0 < bound,
            TypeKind::TemplateAlias(t, args) => t.0 < bound && forall|k: int|
                0 <= k < args@.len() ==> (#[trigger] args@[k]).0 < bound,
            TypeKind::TemplateRef(t, args) => t.0 < bound && forall|k: int|
                0 <= k < args@.len() ==> (#[trigger] args@[k]).0 < bound,
            TypeKind::Function(sig) => sig.return_type.0 < bound && forall|k: int|
                0 <= k < sig.argument_types@.len() ==> (#[trigger] sig.argument_types@[k]).1.0
                    < bound,
            _ => true,
        }
    }

    /// Every item that this type refers to, and that some query follows, is
    /// a type of `ctx` of rank below `bound`.
    pub open spec fn refs_ranked(self, ctx: BindgenContext, bound: nat) -> bool {
        match self.spec_kind() {
            TypeKind::Alias(_, t) => ctx.ranked_ref(t, bound),
            TypeKind::ResolvedTypeRef(t) => ctx.ranked_ref(t, bound),
            TypeKind::Pointer(t) => ctx.ranked_ref(t, bound),
            TypeKind::Array(t, _) => ctx.ranked_ref(t, bound),
            TypeKind::TemplateAlias(t, args) => ctx.ranked_ref(t, bound) && forall|k: int|
                0 <= k < args@.len() ==> ctx.ranked_ref(#[trigger] args@[k], bound),
            TypeKind::TemplateRef(t, args) => ctx.ranked_ref(t, bound) && forall|k: int|
                0 <= k < args@.len() ==> ctx.ranked_ref(#[trigger] args@[k], bound),
            TypeKind::Function(sig) => ctx.ranked_ref(sig.return_type, bound) && forall|k: int|
                0 <= k < sig.argument_types@.len() ==> ctx.ranked_ref(
                    (#[trigger] sig.argument_types@[k]).1,
                    bound,
                ),
            _ => true,
        }
    }

    /// Whether this type refers to the item `j`, through a reference that
    /// some query follows.
    pub open spec fn refers_to(self, j: ItemId) -> bool {
        match self.spec_kind() {
            TypeKind::Alias(_, t) => t == j,
            TypeKind::ResolvedTypeRef(t) => t == j,
            TypeKind::Pointer(t) => t == j,
            TypeKind::Array(t, _) => t == j,
            TypeKind::TemplateAlias(t, args) => t == j || args@.contains(j),
            TypeKind::TemplateRef(t, args) => t == j || args@.contains(j),
            TypeKind::Function(sig) => sig.return_type == j || exists|k: int|
                0 <= k < sig.argument_types@.len() && (#[trigger] sig.argument_types@[k]).1 == j,
            _ => false,
        }
    }

    /// Whether the name of this type, if present, is not empty.
    pub open spec fn name_not_empty(self) -> bool {
        self.spec_name() matches Some(n) ==> n@.len() > 0
    }

    /// Construct a new `Type`.
    pub fn new(name: Option<String>, layout: Option<Layout>, kind: TypeKind, is_const: bool) -> (t:
        Self)
        ensures
            t.spec_name() == name,
            t.spec_layout() == layout,
            t.spec_kind() == kind,
            t.spec_is_const() == is_const,
    {
        Type { name: name, layout: layout, kind: kind, is_const: is_const }
    }

    /// Which kind of type is this?
    pub fn kind(&self) -> (r: &TypeKind)
        ensures
            *r == self.spec_kind(),
    {
        &self.kind
    }

    /// Get a mutable reference to this type's kind.
    pub fn kind_mut(&mut self) -> (r: &mut TypeKind)
        ensures
            *r == old(self).spec_kind(),
            final(self).spec_kind() == *final(r),
            final(self).spec_name() == old(self).spec_name(),
            final(self).spec_layout() == old(self).spec_layout(),
            final(self).spec_is_const() == old(self).spec_is_const(),
    {
        &mut self.kind
    }

    /// Get this type's name.
    pub fn name(&self) -> (r: Option<&str>)
        ensures
            r is None <==> self.spec_name() is None,
            r matches Some(s) ==> s@ == self.spec_name().unwrap()@,
    {
        match &self.name {
            Some(name) => Some(name.as_str()),
            None => None,
        }
    }

    /// Get the underlying `CompInfo` for this type, or `None` if this is some
    /// other kind of type.
    pub fn as_comp(&self) -> (r: Option<&CompInfo>)
        ensures
            r is Some <==> self.spec_kind() is Comp,
            r matches Some(ci) ==> self.spec_kind() == TypeKind::Comp(*ci),
    {
        match &self.kind {
            TypeKind::Comp(ci) => Some(ci),
            _ => None,
        }
    }

    /// Is this a compound type?
    pub fn is_comp(&self) -> (r: bool)
        ensures
            r == self.spec_kind() is Comp,
    {
        match self.kind {
            TypeKind::Comp(..) => true,
            _ => false,
        }
    }

    /// Is this a named type?
    pub fn is_named(&self) -> (r: bool)
        ensures
            r == self.spec_kind() is Named,
    {
        match self.kind {
            TypeKind::Named(..) => true,
            _ => false,
        }
    }

    /// Is this a function type?
    pub fn is_function(&self) -> (r: bool)
        ensures
            r == self.spec_kind() is Function,
    {
        match self.kind {
            TypeKind::Function(..) => true,
            _ => false,
        }
    }

    /// Whether this type is a builtin type (void, `nullptr_t`, a function, an
    /// array, a reference, a pointer, a block pointer, an integer or a float)
    /// or a named type.
    pub open spec fn spec_is_builtin_or_named(self) -> bool {
        match self.spec_kind() {
            TypeKind::Void | TypeKind::NullPtr | TypeKind::Function(..) | TypeKind::Array(..)
            | TypeKind::Reference(..) | TypeKind::Pointer(..) | TypeKind::BlockPointer
            | TypeKind::Int(..) | TypeKind::Float(..) | TypeKind::Named(..) => true,
            _ => false,
        }
    }

    /// Is this either a builtin or named type?
    pub fn is_builtin_or_named(&self) -> (r: bool)
        ensures
            r == self.spec_is_builtin_or_named(),
    {
        match self.kind {
            TypeKind::Void | TypeKind::NullPtr | TypeKind::Function(..) | TypeKind::Array(..)
            | TypeKind::Reference(..) | TypeKind::Pointer(..) | TypeKind::BlockPointer
            | TypeKind::Int(..) | TypeKind::Float(..) | TypeKind::Named(..) => true,
            _ => false,
        }
    }

    /// Creates a new named type, with name `name`.
    pub fn named(name: String, default: Option<ItemId>) -> (t: Self)
        requires
            name@.len() > 0,
        ensures
            t.spec_name() == Some(name),
            t.spec_layout() is None,
            t.spec_kind() == TypeKind::Named(name, default),
            !t.spec_is_const(),
            t.name_not_empty(),
    {
        let kind = TypeKind::Named(name.clone(), default);
        Self::new(Some(name), None, kind, false)
    }

    /// Whether this type has a vtable, following indirections to types whose
    /// identifiers are below `bound`.
    pub open spec fn vtable_below(self, ctx: BindgenContext, bound: nat) -> bool
        decreases bound,
    {
        match self.spec_kind() {
            TypeKind::TemplateRef(t, _) | TypeKind::TemplateAlias(t, _) | TypeKind::Alias(_, t)
            | TypeKind::ResolvedTypeRef(t) => ctx.rank(t) < bound && ctx@[t.0 as int].vtable_below(
                ctx,
                ctx.rank(t),
            ),
            TypeKind::Comp(info) => info.has_vtable,
            _ => false,
        }
    }

    /// Whether this type has a vtable.
    pub open spec fn spec_has_vtable(self, ctx: BindgenContext) -> bool {
        self.vtable_below(ctx, ctx.rank_top())
    }

    /// Whether this type has a vtable.
    pub fn has_vtable(&self, ctx: &BindgenContext) -> (r: bool)
        requires
            ctx.resolves(*self),
        ensures
            r == self.spec_has_vtable(*ctx),
    {
        self.has_vtable_below(ctx, Ghost(ctx.rank_top()))
    }

    fn has_vtable_below(&self, ctx: &BindgenContext, Ghost(bound): Ghost<nat>) -> (r: bool)
        requires
            self.refs_ranked(*ctx, bound),
        ensures
            r == self.vtable_below(*ctx, bound),
        decreases bound,
    {
        match &self.kind {
            TypeKind::TemplateRef(t, _) | TypeKind::TemplateAlias(t, _) | TypeKind::Alias(_, t)
            | TypeKind::ResolvedTypeRef(t) => {
                ctx.resolve_type(*t).has_vtable_below(ctx, Ghost(ctx.rank(*t)))
            },
            TypeKind::Comp(info) => info.has_vtable,
            _ => false,
        }
    }

    /// Whether this type has a destructor, following indirections to types
    /// whose identifiers are below `bound`.
    pub open spec fn destructor_below(self, ctx: BindgenContext, bound: nat) -> bool
        decreases bound,
    {
        match self.spec_kind() {
            TypeKind::TemplateRef(t, _) | TypeKind::TemplateAlias(t, _) | TypeKind::Alias(_, t)
            | TypeKind::ResolvedTypeRef(t) => ctx.rank(t) < bound && ctx@[t.0 as int].destructor_below(
                ctx,
                ctx.rank(t),
            ),
            TypeKind::Comp(info) => info.has_destructor,
            _ => false,
        }
    }

    /// Whether this type has a destructor.
    pub open spec fn spec_has_destructor(self, ctx: BindgenContext) -> bool {
        self.destructor_below(ctx, ctx.rank_top())
    }

    /// Returns whether this type has a destructor.
    pub fn has_destructor(&self, ctx: &BindgenContext) -> (r: bool)
        requires
            ctx.resolves(*self),
        ensures
            r == self.spec_has_destructor(*ctx),
    {
        self.has_destructor_below(ctx, Ghost(ctx.rank_top()))
    }

    fn has_destructor_below(&self, ctx: &BindgenContext, Ghost(bound): Ghost<nat>) -> (r: bool)
        requires
            self.refs_ranked(*ctx, bound),
        ensures
            r == self.destructor_below(*ctx, bound),
        decreases bound,
    {
        match &self.kind {
            TypeKind::TemplateRef(t, _) | TypeKind::TemplateAlias(t, _) | TypeKind::Alias(_, t)
            | TypeKind::ResolvedTypeRef(t) => {
                ctx.resolve_type(*t).has_destructor_below(ctx, Ghost(ctx.rank(*t)))
            },
            TypeKind::Comp(info) => info.has_destructor,
            _ => false,
        }
    }

    /// Whether `Debug` can be derived for this type, following indirections
    /// to types whose identifiers are below `bound`.
    pub open spec fn debug_below(self, ctx: BindgenContext, bound: nat) -> bool
        decreases bound,
    {
        match self.spec_kind() {
            TypeKind::Array(t, len) => len <= RUST_DERIVE_IN_ARRAY_LIMIT && ctx.rank(t) < bound
                && ctx@[t.0 as int].debug_below(ctx, ctx.rank(t)),
            TypeKind::ResolvedTypeRef(t) | TypeKind::TemplateAlias(t, _) | TypeKind::Alias(_, t) =>
                ctx.rank(t) < bound && ctx@[t.0 as int].debug_below(ctx, ctx.rank(t)),
            TypeKind::Comp(info) => info.spec_can_derive_debug(self.layout_below(ctx, bound)),
            _ => true,
        }
    }

    /// Whether `Debug` can be derived for this type.
    pub open spec fn spec_can_derive_debug(self, ctx: BindgenContext) -> bool {
        self.debug_below(ctx, ctx.rank_top())
    }

    /// Whether we can derive rust's `Debug` annotation in Rust. This should
    /// ideally be a no-op that just returns `true`, but instead needs to be a
    /// recursive method that checks whether all the proper members can derive
    /// debug or not, because of the limit rust has on 32 items as max in the
    /// array.
    pub fn can_derive_debug(&self, ctx: &BindgenContext) -> (r: bool)
        requires
            ctx.resolves(*self),
        ensures
            r == self.spec_can_derive_debug(*ctx),
    {
        self.can_derive_debug_below(ctx, Ghost(ctx.rank_top()))
    }

    fn can_derive_debug_below(&self, ctx: &BindgenContext, Ghost(bound): Ghost<nat>) -> (r: bool)
        requires
            self.refs_ranked(*ctx, bound),
        ensures
            r == self.debug_below(*ctx, bound),
        decreases bound,
    {
        match &self.kind {
            TypeKind::Array(t, len) => {
                *len <= RUST_DERIVE_IN_ARRAY_LIMIT && ctx.resolve_type(*t).can_derive_debug_below(
                    ctx,
                    Ghost(ctx.rank(*t)),
                )
            },
            TypeKind::ResolvedTypeRef(t) | TypeKind::TemplateAlias(t, _) | TypeKind::Alias(_, t) => {
                ctx.resolve_type(*t).can_derive_debug_below(ctx, Ghost(ctx.rank(*t)))
            },
            TypeKind::Comp(info) => info.can_derive_debug(self.find_layout_below(ctx, Ghost(bound))),
            _ => true,
        }
    }

    /// Whether `Copy` can be derived for this type, following indirections to
    /// types whose identifiers are below `bound`.
    pub open spec fn copy_below(self, ctx: BindgenContext, bound: nat) -> bool
        decreases bound, 0nat,
    {
        match self.spec_kind() {
            TypeKind::Array(t, len) => len <= RUST_DERIVE_IN_ARRAY_LIMIT && ctx.rank(t) < bound
                && ctx@[t.0 as int].copy_in_array_below(ctx, ctx.rank(t)),
            TypeKind::ResolvedTypeRef(t) | TypeKind::TemplateAlias(t, _) | TypeKind::TemplateRef(t, _)
            | TypeKind::Alias(_, t) => ctx.rank(t) < bound && ctx@[t.0 as int].copy_below(ctx, ctx.rank(t)),
            TypeKind::Comp(info) => info.can_derive_copy,
            _ => true,
        }
    }

    /// Whether `Copy` can be derived for an array of this type, following
    /// indirections to types whose identifiers are below `bound`.
    pub open spec fn copy_in_array_below(self, ctx: BindgenContext, bound: nat) -> bool
        decreases bound, 1nat,
    {
        match self.spec_kind() {
            TypeKind::ResolvedTypeRef(t) | TypeKind::TemplateAlias(t, _) | TypeKind::Alias(_, t)
            | TypeKind::Array(t, _) => ctx.rank(t) < bound && ctx@[t.0 as int].copy_in_array_below(
                ctx,
                ctx.rank(t),
            ),
            TypeKind::Named(..) => false,
            _ => self.copy_below(ctx, bound),
        }
    }

    /// Whether `Copy` can be derived for this type.
    pub open spec fn spec_can_derive_copy(self, ctx: BindgenContext) -> bool {
        self.copy_below(ctx, ctx.rank_top())
    }

    /// Whether `Copy` can be derived for an array of this type.
    pub open spec fn spec_can_derive_copy_in_array(self, ctx: BindgenContext) -> bool {
        self.copy_in_array_below(ctx, ctx.rank_top())
    }

    /// For some reason, deriving copies of an array of a type that is not known
    /// to be copy is a compile error: `struct A<T> { member: T }` can derive
    /// `Copy`, while `struct A<T> { member: [T; 1] }` cannot.
    ///
    /// That's the whole point of the existence of `can_derive_copy_in_array`.
    pub fn can_derive_copy_in_array(&self, ctx: &BindgenContext) -> (r: bool)
        requires
            ctx.resolves(*self),
        ensures
            r == self.spec_can_derive_copy_in_array(*ctx),
    {
        self.can_derive_copy_in_array_below(ctx, Ghost(ctx.rank_top()))
    }

    /// Whether we'd be able to derive the `Copy` trait in Rust or not. Same
    /// rationale than `can_derive_debug`.
    pub fn can_derive_copy(&self, ctx: &BindgenContext) -> (r: bool)
        requires
            ctx.resolves(*self),
        ensures
            r == self.spec_can_derive_copy(*ctx),
    {
        self.can_derive_copy_below(ctx, Ghost(ctx.rank_top()))
    }

    fn can_derive_copy_in_array_below(&self, ctx: &BindgenContext, Ghost(bound): Ghost<nat>) -> (r:
        bool)
        requires
            self.refs_ranked(*ctx, bound),
        ensures
            r == self.copy_in_array_below(*ctx, bound),
        decreases bound, 1nat,
    {
        match &self.kind {
            TypeKind::ResolvedTypeRef(t) | TypeKind::TemplateAlias(t, _) | TypeKind::Alias(_, t)
            | TypeKind::Array(t, _) => {
                ctx.resolve_type(*t).can_derive_copy_in_array_below(ctx, Ghost(ctx.rank(*t)))
            },
            TypeKind::Named(..) => false,
            _ => self.can_derive_copy_below(ctx, Ghost(bound)),
        }
    }

    fn can_derive_copy_below(&self, ctx: &BindgenContext, Ghost(bound): Ghost<nat>) -> (r: bool)
        requires
            self.refs_ranked(*ctx, bound),
        ensures
            r == self.copy_below(*ctx, bound),
        decreases bound, 0nat,
    {
        match &self.kind {
            TypeKind::Array(t, len) => {
                *len <= RUST_DERIVE_IN_ARRAY_LIMIT
                    && ctx.resolve_type(*t).can_derive_copy_in_array_below(ctx, Ghost(ctx.rank(*t)))
            },
            TypeKind::ResolvedTypeRef(t) | TypeKind::TemplateAlias(t, _) | TypeKind::TemplateRef(t, _)
            | TypeKind::Alias(_, t) => {
                ctx.resolve_type(*t).can_derive_copy_below(ctx, Ghost(ctx.rank(*t)))
            },
            TypeKind::Comp(info) => info.can_derive_copy,
            _ => true,
        }
    }

    /// The canonical type of this type, following indirections to types
    /// whose identifiers are below `bound`; `None` where a reference that is
    /// not resolved yet is met.
    pub open spec fn canonical_below(self, ctx: BindgenContext, bound: nat) -> Option<Type>
        decreases bound,
    {
        match self.spec_kind() {
            TypeKind::ResolvedTypeRef(inner) | TypeKind::Alias(_, inner) | TypeKind::TemplateAlias(
                inner,
                _,
            ) | TypeKind::TemplateRef(inner, _) => if ctx.rank(inner) < bound {
                ctx@[inner.0 as int].canonical_below(ctx, ctx.rank(inner))
            } else {
                None
            },
            TypeKind::UnresolvedTypeRef(..) => None,
            _ => Some(self),
        }
    }

    /// The canonical type of this type: the first type, following aliases,
    /// template aliases, template references and resolved references, that is
    /// none of these; `None` where a reference that is not resolved yet is
    /// met on the way.
    pub open spec fn spec_canonical_type(self, ctx: BindgenContext) -> Option<Type> {
        self.canonical_below(ctx, ctx.rank_top())
    }

    /// Returns the canonical type of this type, that is, the "inner type".
    ///
    /// For example, for a `typedef`, the canonical type would be the
    /// `typedef`ed type, for a template specialization, would be the template
    /// its specializing, and so on.
    pub fn canonical_type<'tr>(&'tr self, ctx: &'tr BindgenContext) -> (r: &'tr Type)
        requires
            ctx.resolves(*self),
            self.spec_canonical_type(*ctx) is Some,
        ensures
            self.spec_canonical_type(*ctx) == Some(*r),
    {
        self.canonical_type_below(ctx, Ghost(ctx.rank_top()))
    }

    fn canonical_type_below<'tr>(&'tr self, ctx: &'tr BindgenContext, Ghost(bound): Ghost<nat>) -> (r:
        &'tr Type)
        requires
            self.refs_ranked(*ctx, bound),
            self.canonical_below(*ctx, bound) is Some,
        ensures
            self.canonical_below(*ctx, bound) == Some(*r),
        decreases bound,
    {
        match &self.kind {
            TypeKind::ResolvedTypeRef(inner) | TypeKind::Alias(_, inner) | TypeKind::TemplateAlias(
                inner,
                _,
            ) | TypeKind::TemplateRef(inner, _) => {
                ctx.resolve_type(*inner).canonical_type_below(ctx, Ghost(ctx.rank(*inner)))
            },
            _ => self,
        }
    }

    /// Whether this type is an integer type: whether its canonical type is.
    pub open spec fn spec_is_integer(self, ctx: BindgenContext) -> bool {
        match self.spec_kind() {
            TypeKind::UnresolvedTypeRef(..) => false,
            _ => match self.spec_canonical_type(ctx) {
                Some(c) => c.spec_kind() is Int,
                None => false,
            },
        }
    }

    /// Is this an integer type?
    pub fn is_integer(&self, ctx: &BindgenContext) -> (r: bool)
        requires
            ctx.resolves(*self),
            self.spec_kind() is UnresolvedTypeRef || self.spec_canonical_type(*ctx) is Some,
        ensures
            r == self.spec_is_integer(*ctx),
    {
        match self.kind {
            TypeKind::UnresolvedTypeRef(..) => false,
            _ => match self.canonical_type(ctx).kind {
                TypeKind::Int(..) => true,
                _ => false,
            },
        }
    }

    /// Whether this type has no members, following indirections to types
    /// whose identifiers are below `bound`; `None` where a reference that is
    /// not resolved yet is met.
    pub open spec fn unsized_below(self, ctx: BindgenContext, bound: nat) -> Option<bool>
        decreases bound,
    {
        match self.spec_kind() {
            TypeKind::Void => Some(true),
            TypeKind::Comp(ci) => Some(ci.is_unsized),
            TypeKind::Array(inner, size) => if size == 0 {
                Some(true)
            } else if ctx.rank(inner) < bound {
                ctx@[inner.0 as int].unsized_below(ctx, ctx.rank(inner))
            } else {
                None
            },
            TypeKind::ResolvedTypeRef(inner) | TypeKind::Alias(_, inner) | TypeKind::TemplateAlias(
                inner,
                _,
            ) | TypeKind::TemplateRef(inner, _) => if ctx.rank(inner) < bound {
                ctx@[inner.0 as int].unsized_below(ctx, ctx.rank(inner))
            } else {
                None
            },
            TypeKind::UnresolvedTypeRef(..) => None,
            _ => Some(false),
        }
    }

    /// Whether this type is unsized, that is, has no members; `None` where a
    /// reference that is not resolved yet is met on the way.
    pub open spec fn spec_is_unsized(self, ctx: BindgenContext) -> Option<bool> {
        self.unsized_below(ctx, ctx.rank_top())
    }

    /// Whether this type is unsized, that is, has no members. This is used to
    /// derive whether we should generate a dummy `_address` field for structs,
    /// to comply to the C and C++ layouts, that specify that every type needs
    /// to be addressable.
    pub fn is_unsized(&self, ctx: &BindgenContext) -> (r: bool)
        requires
            ctx.spec_in_codegen_phase(),
            ctx.resolves(*self),
            self.spec_is_unsized(*ctx) is Some,
        ensures
            self.spec_is_unsized(*ctx) == Some(r),
    {
        self.is_unsized_below(ctx, Ghost(ctx.rank_top()))
    }

    fn is_unsized_below(&self, ctx: &BindgenContext, Ghost(bound): Ghost<nat>) -> (r: bool)
        requires
            self.refs_ranked(*ctx, bound),
            self.unsized_below(*ctx, bound) is Some,
        ensures
            self.unsized_below(*ctx, bound) == Some(r),
        decreases bound,
    {
        match &self.kind {
            TypeKind::Void => true,
            TypeKind::Comp(ci) => ci.is_unsized,
            TypeKind::Array(inner, size) => {
                *size == 0 || ctx.resolve_type(*inner).is_unsized_below(ctx, Ghost(ctx.rank(*inner)))
            },
            TypeKind::ResolvedTypeRef(inner) | TypeKind::Alias(_, inner) | TypeKind::TemplateAlias(
                inner,
                _,
            ) | TypeKind::TemplateRef(inner, _) => {
                ctx.resolve_type(*inner).is_unsized_below(ctx, Ghost(ctx.rank(*inner)))
            },
            _ => false,
        }
    }

    /// The layout of a pointer: that of `usize`, which has the size of a
    /// pointer.
    pub open spec fn pointer_layout() -> Layout {
        Layout {
            size: vstd::layout::size_of::<usize>() as usize,
            align: vstd::layout::align_of::<usize>() as usize,
            packed: false,
        }
    }

    /// The layout of this type, following resolved references to types whose
    /// identifiers are below `bound`.
    pub open spec fn layout_below(self, ctx: BindgenContext, bound: nat) -> Option<Layout>
        decreases bound,
    {
        match self.spec_layout() {
            Some(l) => Some(l),
            None => match self.spec_kind() {
                TypeKind::Comp(ci) => ci.layout,
                TypeKind::Pointer(..) | TypeKind::BlockPointer => Some(Type::pointer_layout()),
                TypeKind::ResolvedTypeRef(inner) => if ctx.rank(inner) < bound {
                    ctx@[inner.0 as int].layout_below(ctx, ctx.rank(inner))
                } else {
                    None
                },
                _ => None,
            },
        }
    }

    /// The layout of this type: its own if known, else that of its compound
    /// type, that of a pointer for pointers, or that of the type that a
    /// resolved reference refers to.
    pub open spec fn spec_layout_in(self, ctx: BindgenContext) -> Option<Layout> {
        self.layout_below(ctx, ctx.rank_top())
    }

    /// What is the layout of this type?
    pub fn layout(&self, ctx: &BindgenContext) -> (r: Option<Layout>)
        requires
            self.spec_layout() is Some || ctx.resolves(*self),
        ensures
            r == self.spec_layout_in(*ctx),
    {
        match self.layout {
            Some(l) => Some(l),
            None => self.find_layout_below(ctx, Ghost(ctx.rank_top())),
        }
    }

    fn find_layout_below(&self, ctx: &BindgenContext, Ghost(bound): Ghost<nat>) -> (r: Option<Layout>)
        requires
            self.refs_ranked(*ctx, bound),
        ensures
            r == self.layout_below(*ctx, bound),
        decreases bound,
    {
        match self.layout {
            Some(l) => Some(l),
            None => match &self.kind {
                TypeKind::Comp(ci) => ci.layout(),
                TypeKind::Pointer(..) | TypeKind::BlockPointer => Some(
                    Layout::new(core::mem::size_of::<usize>(), core::mem::align_of::<usize>()),
                ),
                TypeKind::ResolvedTypeRef(inner) => {
                    ctx.resolve_type(*inner).find_layout_below(ctx, Ghost(ctx.rank(*inner)))
                },
                _ => None,
            },
        }
    }

    /// Whether the signature of this type mentions the named type called
    /// `name`, following references to types whose identifiers are below
    /// `bound`.
    pub open spec fn names_below(self, ctx: BindgenContext, name: Seq<char>, bound: nat) -> bool
        decreases bound, 1nat,
    {
        match self.spec_kind() {
            TypeKind::Named(this_name, _) => this_name@ == name,
            TypeKind::ResolvedTypeRef(t) | TypeKind::Array(t, _) | TypeKind::Pointer(t)
            | TypeKind::Alias(_, t) => ctx.rank(t) < bound && ctx@[t.0 as int].names_below(
                ctx,
                name,
                ctx.rank(t),
            ),
            TypeKind::Function(sig) => (exists|k: int|
                0 <= k < sig.argument_types@.len() && ctx.rank((#[trigger] sig.argument_types@[k]).1) < bound
                    && ctx@[sig.argument_types@[k].1.0 as int].names_below(
                    ctx,
                    name,
                    ctx.rank(sig.argument_types@[k].1),
                )) || (ctx.rank(sig.return_type) < bound && ctx@[sig.return_type.0 as int].names_below(
                ctx,
                name,
                ctx.rank(sig.return_type),
            )),
            TypeKind::TemplateAlias(_, args) => Type::any_names_below(ctx, args@, name, bound),
            TypeKind::TemplateRef(_, args) => Type::any_names_below(ctx, args@, name, bound),
            TypeKind::Comp(ci) => ci.spec_signature_contains(name),
            _ => false,
        }
    }

    /// Whether the signature of one of the types in `ids` mentions the named
    /// type called `name`, where their identifiers are below `bound`.
    pub open spec fn any_names_below(
        ctx: BindgenContext,
        ids: Seq<ItemId>,
        name: Seq<char>,
        bound: nat,
    ) -> bool
        decreases bound, 0nat,
    {
        exists|k: int|
            0 <= k < ids.len() && ctx.rank(#[trigger] ids[k]) < bound && ctx@[ids[k].0 as int].names_below(
                ctx,
                name,
                ctx.rank(ids[k]),
            )
    }

    /// Whether the signature of this type mentions the named type called
    /// `name`: through the types that it refers to, the argument and return
    /// types of a function, the arguments of a template, and the template
    /// parameters of a compound type.
    pub open spec fn spec_signature_contains(self, ctx: BindgenContext, name: Seq<char>) -> bool {
        self.names_below(ctx, name, ctx.rank_top())
    }

    /// Whether the signature of this type mentions the named type `ty`.
    pub fn signature_contains_named_type(&self, ctx: &BindgenContext, ty: &Type) -> (r: bool)
        requires
            ctx.resolves(*self),
            ty.spec_kind() is Named,
        ensures
            r == self.spec_signature_contains(*ctx, ty.spec_kind()->Named_0@),
    {
        let name = match &ty.kind {
            TypeKind::Named(name, _) => name,
            _ => {
                proof {
                    assert(false);
                }
                return false;
            },
        };
        self.names_below_exec(ctx, name, Ghost(ctx.rank_top()))
    }

    fn names_below_exec(&self, ctx: &BindgenContext, name: &String, Ghost(bound): Ghost<nat>) -> (r:
        bool)
        requires
            self.refs_ranked(*ctx, bound),
        ensures
            r == self.names_below(*ctx, name@, bound),
        decreases bound, 1nat,
    {
        match &self.kind {
            TypeKind::Named(this_name, _) => *this_name == *name,
            TypeKind::ResolvedTypeRef(t) | TypeKind::Array(t, _) | TypeKind::Pointer(t)
            | TypeKind::Alias(_, t) => {
                ctx.resolve_type(*t).names_below_exec(ctx, name, Ghost(ctx.rank(*t)))
            },
            TypeKind::Function(sig) => {
                let a = args_name_below(ctx, sig, name, Ghost(bound));
                let b = ctx.resolve_type(
                    sig.return_type,
                ).names_below_exec(ctx, name, Ghost(ctx.rank(sig.return_type)));
                a || b
            },
            TypeKind::TemplateAlias(_, args) => ids_name_below(ctx, args, name, Ghost(bound)),
            TypeKind::TemplateRef(_, args) => ids_name_below(ctx, args, name, Ghost(bound)),
            TypeKind::Comp(ci) => ci.signature_contains_named_type(name),
            _ => false,
        }
    }

    /// Is this a `const` qualified type?
    pub fn is_const(&self) -> (r: bool)
        ensures
            r == self.spec_is_const(),
    {
        self.is_const
    }
    /// Whether every item that this type refers to, and that some query
    /// follows, has an identifier below `bound`.
    pub fn refs_within(&self, bound: usize) -> (r: bool)
        ensures
            r == self.refs_below(bound as int),
    {
        match &self.kind {
            TypeKind::Alias(_, t) => t.0 < bound,
            TypeKind::ResolvedTypeRef(t) => t.0 < bound,
            TypeKind::Pointer(t) => t.0 < bound,
            TypeKind::Array(t, _) => t.0 < bound,
            TypeKind::TemplateAlias(t, args) => t.0 < bound && ids_below(args, bound),
            TypeKind::TemplateRef(t, args) => t.0 < bound && ids_below(args, bound),
            TypeKind::Function(sig) => sig.return_type.0 < bound && args_below(sig, bound),
            _ => true,
        }
    }
}

/// Whether the signature of one of the types in `ids` mentions the named
/// type called `name`.
fn ids_name_below(ctx: &BindgenContext, ids: &Vec<ItemId>, name: &String, Ghost(bound): Ghost<nat>) -> (r:
    bool)
    requires
        forall|k: int| 0 <= k < ids@.len() ==> ctx.ranked_ref(#[trigger] ids@[k], bound),
    ensures
        r == Type::any_names_below(*ctx, ids@, name@, bound),
    decreases bound, 0nat,
{
    let n = ids.len();
    let mut i: usize = 0;
    while i < n
        invariant
            n == ids@.len(),
            i <= n,
            forall|k: int| 0 <= k < ids@.len() ==> ctx.ranked_ref(#[trigger] ids@[k], bound),
            forall|k: int|
                0 <= k < i ==> !(ctx@[(#[trigger] ids@[k]).0 as int].names_below(
                    *ctx,
                    name@,
                    ctx.rank(ids@[k]),
                )),
        decreases n - i,
    {
        let id = ids[i];
        if ctx.resolve_type(id).names_below_exec(ctx, name, Ghost(ctx.rank(id))) {
            assert(ids@[i as int] == id);
            return true;
        }
        i = i + 1;
    }
    false
}

/// Whether the signature of the type of one of the arguments of `sig`
/// mentions the named type called `name`.
fn args_name_below(ctx: &BindgenContext, sig: &FunctionSig, name: &String, Ghost(bound): Ghost<nat>) -> (r:
    bool)
    requires
        forall|k: int|
            0 <= k < sig.argument_types@.len() ==> ctx.ranked_ref(
                (#[trigger] sig.argument_types@[k]).1,
                bound,
            ),
    ensures
        r == exists|k: int|
            0 <= k < sig.argument_types@.len() && ctx.rank((#[trigger] sig.argument_types@[k]).1) < bound
                && ctx@[sig.argument_types@[k].1.0 as int].names_below(
                *ctx,
                name@,
                ctx.rank(sig.argument_types@[k].1),
            ),
    decreases bound, 0nat,
{
    let n = sig.argument_types.len();
    let mut i: usize = 0;
    while i < n
        invariant
            n == sig.argument_types@.len(),
            i <= n,
            forall|k: int|
                0 <= k < sig.argument_types@.len() ==> ctx.ranked_ref(
                    (#[trigger] sig.argument_types@[k]).1,
                    bound,
                ),
            forall|k: int|
                0 <= k < i ==> !(ctx@[(#[trigger] sig.argument_types@[k]).1.0 as int].names_below(
                    *ctx,
                    name@,
                    ctx.rank(sig.argument_types@[k].1),
                )),
        decreases n - i,
    {
        let id = sig.argument_types[i].1;
        if ctx.resolve_type(id).names_below_exec(ctx, name, Ghost(ctx.rank(id))) {
            assert(sig.argument_types@[i as int].1 == id);
            return true;
        }
        i = i + 1;
    }
    false
}

/// Whether the type of every argument of `sig` has an identifier below
/// `bound`.
fn args_below(sig: &FunctionSig, bound: usize) -> (r: bool)
    ensures
        r == forall|k: int|
            0 <= k < sig.argument_types@.len() ==> (#[trigger] sig.argument_types@[k]).1.0 < bound,
{
    let n = sig.argument_types.len();
    let mut i: usize = 0;
    while i < n
        invariant
            n == sig.argument_types@.len(),
            i <= n,
            forall|k: int| 0 <= k < i ==> (#[trigger] sig.argument_types@[k]).1.0 < bound,
        decreases n - i,
    {
        if sig.argument_types[i].1.0 >= bound {
            assert(sig.argument_types@[i as int].1.0 >= bound);
            return false;
        }
        i = i + 1;
    }
    true
}

/// Whether every identifier in `ids` is below `bound`.
fn ids_below(ids: &Vec<ItemId>, bound: usize) -> (r: bool)
    ensures
        r == forall|k: int| 0 <= k < ids@.len() ==> (#[trigger] ids@[k]).0 < bound,
{
    let n = ids.len();
    let mut i: usize = 0;
    while i < n
        invariant
            n == ids@.len(),
            i <= n,
            forall|k: int| 0 <= k < i ==> (#[trigger] ids@[k]).0 < bound,
        decreases n - i,
    {
        if ids[i].0 >= bound {
            return false;
        }
        i = i + 1;
    }
    true
}

/// What the conversion of a libclang type into a `Type` reads of the type,
/// of its canonical type, of the cursor that it was found at and of the
/// context, before it decides what to do.
#[derive(Debug)]
pub struct ClangTypeFacts {
    /// The identifier under which the context already knows the type, as a
    /// builtin type or as one resolved before.
    pub already_resolved: Option<ItemId>,
    /// The kind of the type.
    pub kind: ClangTypeKind,
    /// Whether the type differs from its canonical type.
    pub canonical_differs: bool,
    /// The kind of the canonical type.
    pub canonical_kind: ClangTypeKind,
    /// Whether the type has a return type.
    pub has_ret_type: bool,
    /// The number of template arguments of the type.
    pub num_template_args: i32,
    /// The kind of the cursor that the type was found at, if any.
    pub location_kind: Option<CursorKind>,
    /// The number of elements, for an array or vector type.
    pub num_elements: usize,
}

/// What the conversion of a libclang type into a `Type` does next.
#[derive(Debug, Clone, Copy, PartialEq, Eq, Structural)]
pub enum ClangTypeAction {
    /// Answer with the item that the context already knows.
    AlreadyResolved(ItemId),
    /// Convert the canonical type instead.
    FromCanonical,
    /// Parse a function signature from the type.
    FunctionSig,
    /// Parse a compound type from a template specialisation.
    TemplateSpecialization,
    /// Parse a compound type from a class template at the location, named as
    /// the location is spelled.
    ClassTemplate,
    /// Parse a template alias from the children of the location.
    TemplateAlias,
    /// Convert the type that the template reference at the location refers
    /// to.
    FollowTemplateRef,
    /// Answer with the item for the type that the type reference at the
    /// location refers to.
    FollowTypeRef,
    /// Make a pointer to the pointee type.
    Pointer,
    /// Make a pointer to an Apple block.
    BlockPointer,
    /// Make a reference to the pointee type.
    Reference,
    /// Make a pointer to the element type, for an array of unknown size.
    ElementPointer,
    /// Make an array of the given length of the element type.
    Array(usize),
    /// Make an alias of the type that the declaration aliases.
    Typedef,
    /// Parse an enum.
    Enum,
    /// Parse a compound type.
    Record,
    /// Convert the named type that an elaborated type stands for.
    FromNamed,
    /// Give up with the error.
    Fail(ParseError),
}

/// What to do with an unexposed or invalid libclang type that is not a
/// function and not a template specialisation, given the kind of the cursor
/// it was found at.
pub open spec fn spec_location_action(kind: ClangTypeKind, location: Option<CursorKind>) -> ClangTypeAction {
    match location {
        Some(CursorKind::ClassTemplatePartialSpecialization) | Some(CursorKind::ClassTemplate) =>
            ClangTypeAction::ClassTemplate,
        Some(CursorKind::TypeAliasTemplateDecl) => ClangTypeAction::TemplateAlias,
        Some(CursorKind::TemplateRef) => ClangTypeAction::FollowTemplateRef,
        Some(CursorKind::TypeRef) => ClangTypeAction::FollowTypeRef,
        _ => if kind == ClangTypeKind::Unexposed {
            ClangTypeAction::Fail(ParseError::Recurse)
        } else {
            ClangTypeAction::Fail(ParseError::Continue)
        },
    }
}

/// What the conversion of a libclang type does next, given what it reads.
pub open spec fn spec_clang_type_action(f: ClangTypeFacts) -> ClangTypeAction {
    match f.already_resolved {
        Some(id) => ClangTypeAction::AlreadyResolved(id),
        None => match f.kind {
            ClangTypeKind::Unexposed | ClangTypeKind::Invalid => if f.kind
                == ClangTypeKind::Unexposed && f.canonical_differs && f.canonical_kind
                != ClangTypeKind::Invalid {
                ClangTypeAction::FromCanonical
            } else if f.has_ret_type {
                ClangTypeAction::FunctionSig
            } else if f.num_template_args > 0 {
                ClangTypeAction::TemplateSpecialization
            } else {
                spec_location_action(f.kind, f.location_kind)
            },
            ClangTypeKind::MemberPointer | ClangTypeKind::Pointer => ClangTypeAction::Pointer,
            ClangTypeKind::BlockPointer => ClangTypeAction::BlockPointer,
            ClangTypeKind::RValueReference | ClangTypeKind::LValueReference =>
                ClangTypeAction::Reference,
            ClangTypeKind::VariableArray | ClangTypeKind::DependentSizedArray
            | ClangTypeKind::IncompleteArray => ClangTypeAction::ElementPointer,
            ClangTypeKind::FunctionNoProto | ClangTypeKind::FunctionProto =>
                ClangTypeAction::FunctionSig,
            ClangTypeKind::Typedef => ClangTypeAction::Typedef,
            ClangTypeKind::Enum => ClangTypeAction::Enum,
            ClangTypeKind::Record => ClangTypeAction::Record,
            ClangTypeKind::Vector | ClangTypeKind::ConstantArray => ClangTypeAction::Array(
                f.num_elements,
            ),
            ClangTypeKind::Complex => ClangTypeAction::Array(2),
            ClangTypeKind::Elaborated => ClangTypeAction::FromNamed,
            ClangTypeKind::Other => ClangTypeAction::Fail(ParseError::Continue),
        },
    }
}

/// What was parsed for an action of the conversion of a libclang type.
#[derive(Debug)]
pub enum ClangTypePart {
    /// Nothing.
    Nothing,
    /// An item: the pointee, the element type, or the aliased type.
    Item(ItemId),
    /// A function signature.
    Signature(FunctionSig),
    /// A compound type.
    Compound(CompInfo),
    /// An enum.
    Enumeration(Enum),
    /// The kind of a template alias.
    AliasTemplate(TypeKind),
}

/// The kind that an action builds from what was parsed for it and the
/// spelling of the type.
pub open spec fn spec_kind_for_action(action: ClangTypeAction, part: ClangTypePart, spelling: String) -> Option<
    TypeKind,
> {
    match action {
        ClangTypeAction::BlockPointer => Some(TypeKind::BlockPointer),
        ClangTypeAction::Pointer | ClangTypeAction::ElementPointer => match part {
            ClangTypePart::Item(i) => Some(TypeKind::Pointer(i)),
            _ => None,
        },
        ClangTypeAction::Reference => match part {
            ClangTypePart::Item(i) => Some(TypeKind::Reference(i)),
            _ => None,
        },
        ClangTypeAction::Array(n) => match part {
            ClangTypePart::Item(i) => Some(TypeKind::Array(i, n)),
            _ => None,
        },
        ClangTypeAction::Typedef => match part {
            ClangTypePart::Item(i) => Some(TypeKind::Alias(spelling, i)),
            _ => None,
        },
        ClangTypeAction::FunctionSig => match part {
            ClangTypePart::Signature(sig) => Some(TypeKind::Function(sig)),
            _ => None,
        },
        ClangTypeAction::TemplateSpecialization | ClangTypeAction::ClassTemplate
        | ClangTypeAction::Record => match part {
            ClangTypePart::Compound(ci) => Some(TypeKind::Comp(ci)),
            _ => None,
        },
        ClangTypeAction::Enum => match part {
            ClangTypePart::Enumeration(e) => Some(TypeKind::Enum(e)),
            _ => None,
        },
        ClangTypeAction::TemplateAlias => match part {
            ClangTypePart::AliasTemplate(k) => if k is TemplateAlias {
                Some(k)
            } else {
                None
            },
            _ => None,
        },
        _ => None,
    }
}

/// The name under which a converted type is known.
pub open spec fn spec_clang_type_name(
    action: ClangTypeAction,
    declaration_spelling: String,
    location_spelling: Option<String>,
) -> String {
    if action is ClassTemplate && location_spelling is Some {
        location_spelling.unwrap()
    } else {
        declaration_spelling
    }
}

/// What the walk over the children of a template alias declaration does
/// with a child.
#[derive(Debug, Clone, Copy, PartialEq, Eq, Structural)]
pub enum TemplateChildAction {
    /// Parse the inner alias from the child's type.
    ParseAlias,
    /// Add a named type for the template parameter.
    AddParam,
    /// Skip the child.
    Skip,
}

/// What the walk does with a child of the given kind, whose spelling is
/// empty or not.
pub open spec fn spec_template_child_action(kind: CursorKind, spelling_empty: bool) -> TemplateChildAction {
    if kind == CursorKind::TypeAliasDecl {
        TemplateChildAction::ParseAlias
    } else if kind == CursorKind::TemplateTypeParameter && !spelling_empty {
        TemplateChildAction::AddParam
    } else {
        TemplateChildAction::Skip
    }
}

/// What a child of a template alias declaration gave the walk.
#[derive(Debug, Clone, Copy)]
pub enum TemplateAliasChild {
    /// An alias declaration, and what parsing its type gave.
    AliasDecl(Result<ItemId, ParseError>),
    /// A named template parameter, and the named type added for it.
    Param(ItemId),
    /// A child that was skipped.
    Ignored,
}

/// What the last alias declaration among `children` gave; an error where
/// there is none.
pub open spec fn spec_last_alias(children: Seq<TemplateAliasChild>) -> Result<ItemId, ParseError>
    decreases children.len(),
{
    if children.len() == 0 {
        Err(ParseError::Continue)
    } else {
        match children.last() {
            TemplateAliasChild::AliasDecl(res) => res,
            _ => spec_last_alias(children.drop_last()),
        }
    }
}

/// The named types added for the template parameters among `children`, in
/// order.
pub open spec fn spec_template_params(children: Seq<TemplateAliasChild>) -> Seq<ItemId>
    decreases children.len(),
{
    if children.len() == 0 {
        Seq::empty()
    } else {
        match children.last() {
            TemplateAliasChild::Param(id) => spec_template_params(children.drop_last()).push(id),
            _ => spec_template_params(children.drop_last()),
        }
    }
}

impl Type {
    /// Decides how to convert a libclang type into a `Type`, from what the
    /// conversion reads of it.
    ///
    /// Types that the context already knows are answered at once. An
    /// unexposed type that differs from a valid canonical type is converted
    /// through it. Otherwise an unexposed or invalid type is taken for a
    /// function where it has a return type, for a template specialisation
    /// where it has template arguments, and else by what the cursor it was
    /// found at declares. Pointers, references, arrays, functions, typedefs,
    /// enums and records each have their own conversion; vectors become
    /// arrays, and a complex number an array of two.
    pub fn clang_type_action(facts: &ClangTypeFacts) -> (a: ClangTypeAction)
        ensures
            a == spec_clang_type_action(*facts),
            a is FromCanonical ==> facts.canonical_differs,
            facts.already_resolved is None && facts.kind == ClangTypeKind::Unexposed
                && !facts.canonical_differs && !facts.has_ret_type && facts.num_template_args > 0
                ==> a == ClangTypeAction::TemplateSpecialization,
    {
        if let Some(id) = facts.already_resolved {
            return ClangTypeAction::AlreadyResolved(id);
        }
        match facts.kind {
            ClangTypeKind::Unexposed | ClangTypeKind::Invalid => {
                if facts.kind == ClangTypeKind::Unexposed && facts.canonical_differs
                    && facts.canonical_kind != ClangTypeKind::Invalid {
                    ClangTypeAction::FromCanonical
                } else if facts.has_ret_type {
                    ClangTypeAction::FunctionSig
                } else if facts.num_template_args > 0 {
                    ClangTypeAction::TemplateSpecialization
                } else {
                    match facts.location_kind {
                        Some(CursorKind::ClassTemplatePartialSpecialization)
                        | Some(CursorKind::ClassTemplate) => ClangTypeAction::ClassTemplate,
                        Some(CursorKind::TypeAliasTemplateDecl) => ClangTypeAction::TemplateAlias,
                        Some(CursorKind::TemplateRef) => ClangTypeAction::FollowTemplateRef,
                        Some(CursorKind::TypeRef) => ClangTypeAction::FollowTypeRef,
                        _ => {
                            if facts.kind == ClangTypeKind::Unexposed {
                                ClangTypeAction::Fail(ParseError::Recurse)
                            } else {
                                ClangTypeAction::Fail(ParseError::Continue)
                            }
                        },
                    }
                }
            },
            ClangTypeKind::MemberPointer | ClangTypeKind::Pointer => ClangTypeAction::Pointer,
            ClangTypeKind::BlockPointer => ClangTypeAction::BlockPointer,
            ClangTypeKind::RValueReference | ClangTypeKind::LValueReference =>
                ClangTypeAction::Reference,
            ClangTypeKind::VariableArray | ClangTypeKind::DependentSizedArray
            | ClangTypeKind::IncompleteArray => ClangTypeAction::ElementPointer,
            ClangTypeKind::FunctionNoProto | ClangTypeKind::FunctionProto =>
                ClangTypeAction::FunctionSig,
            ClangTypeKind::Typedef => ClangTypeAction::Typedef,
            ClangTypeKind::Enum => ClangTypeAction::Enum,
            ClangTypeKind::Record => ClangTypeAction::Record,
            ClangTypeKind::Vector | ClangTypeKind::ConstantArray => ClangTypeAction::Array(
                facts.num_elements,
            ),
            ClangTypeKind::Complex => ClangTypeAction::Array(2),
            ClangTypeKind::Elaborated => ClangTypeAction::FromNamed,
            ClangTypeKind::Other => ClangTypeAction::Fail(ParseError::Continue),
        }
    }

    /// The kind of a template alias: its inner alias and its template
    /// parameters; refused where the inner alias could not be parsed or where
    /// there is no template parameter.
    pub fn template_alias_kind(inner: Result<ItemId, ParseError>, args: Vec<ItemId>) -> (r: Result<
        TypeKind,
        ParseError,
    >)
        ensures
            inner is Err ==> r == Err::<TypeKind, ParseError>(ParseError::Continue),
            inner is Ok && args@.len() == 0 ==> r == Err::<TypeKind, ParseError>(
                ParseError::Continue,
            ),
            inner is Ok && args@.len() > 0 ==> r == Ok::<TypeKind, ParseError>(
                TypeKind::TemplateAlias(inner->Ok_0, args),
            ),
    {
        match inner {
            Err(_) => Err(ParseError::Continue),
            Ok(id) => {
                if args.len() == 0 {
                    Err(ParseError::Continue)
                } else {
                    Ok(TypeKind::TemplateAlias(id, args))
                }
            },
        }
    }

    /// The kind that an action builds from what was parsed for it and the
    /// spelling of the type: a pointer to the parsed item for a pointer or
    /// for an array of unknown size, a reference to it, an array of it of the
    /// action's length, an alias of it under the spelling for a typedef, a
    /// block pointer, a function of the parsed signature, a compound type
    /// for a template specialisation, class template or record, an enum, or
    /// the parsed template alias; `None` for the other actions, which build
    /// no kind, and where the part does not fit the action.
    pub fn kind_for_action(action: ClangTypeAction, part: ClangTypePart, spelling: String) -> (r:
        Option<TypeKind>)
        ensures
            r == spec_kind_for_action(action, part, spelling),
            r matches Some(k) ==> Type::is_converted_kind(k),
    {
        match action {
            ClangTypeAction::BlockPointer => Some(TypeKind::BlockPointer),
            ClangTypeAction::Pointer | ClangTypeAction::ElementPointer => match part {
                ClangTypePart::Item(i) => Some(TypeKind::Pointer(i)),
                _ => None,
            },
            ClangTypeAction::Reference => match part {
                ClangTypePart::Item(i) => Some(TypeKind::Reference(i)),
                _ => None,
            },
            ClangTypeAction::Array(n) => match part {
                ClangTypePart::Item(i) => Some(TypeKind::Array(i, n)),
                _ => None,
            },
            ClangTypeAction::Typedef => match part {
                ClangTypePart::Item(i) => Some(TypeKind::Alias(spelling, i)),
                _ => None,
            },
            ClangTypeAction::FunctionSig => match part {
                ClangTypePart::Signature(sig) => Some(TypeKind::Function(sig)),
                _ => None,
            },
            ClangTypeAction::TemplateSpecialization | ClangTypeAction::ClassTemplate
            | ClangTypeAction::Record => match part {
                ClangTypePart::Compound(ci) => Some(TypeKind::Comp(ci)),
                _ => None,
            },
            ClangTypeAction::Enum => match part {
                ClangTypePart::Enumeration(e) => Some(TypeKind::Enum(e)),
                _ => None,
            },
            ClangTypeAction::TemplateAlias => match part {
                ClangTypePart::AliasTemplate(k) => match k {
                    TypeKind::TemplateAlias(inner, args) => Some(TypeKind::TemplateAlias(inner, args)),
                    _ => None,
                },
                _ => None,
            },
            _ => None,
        }
    }

    /// The name under which a converted type is known: the spelling of the
    /// location for a class template, and otherwise the spelling of the
    /// type's declaration.
    pub fn clang_type_name(
        action: ClangTypeAction,
        declaration_spelling: String,
        location_spelling: Option<String>,
    ) -> (r: String)
        ensures
            r == spec_clang_type_name(action, declaration_spelling, location_spelling),
    {
        match action {
            ClangTypeAction::ClassTemplate => match location_spelling {
                Some(l) => l,
                None => declaration_spelling,
            },
            _ => declaration_spelling,
        }
    }

    /// The type that the conversion of a libclang type builds for an action
    /// that builds a kind: its kind from the action and what was parsed for
    /// it, its name from the declaration or, for a class template, the
    /// location (an empty name standing for none), and its layout and
    /// constness as libclang gives them; `None` where the action builds no
    /// kind from that part. A converted type is never void, `nullptr_t`, an
    /// integer, a float, a named type, nor a reference, resolved or not.
    pub fn build_from_clang(
        action: ClangTypeAction,
        part: ClangTypePart,
        type_spelling: String,
        declaration_spelling: String,
        location_spelling: Option<String>,
        layout: Option<Layout>,
        is_const: bool,
    ) -> (r: Option<Type>)
        ensures
            r is Some <==> spec_kind_for_action(action, part, type_spelling) is Some,
            r matches Some(t) ==> {
                &&& t.spec_kind() == spec_kind_for_action(action, part, type_spelling).unwrap()
                &&& Type::is_converted_kind(t.spec_kind())
                &&& t.spec_name() == (if spec_clang_type_name(
                    action,
                    declaration_spelling,
                    location_spelling,
                )@.len() == 0 {
                    None::<String>
                } else {
                    Some(spec_clang_type_name(action, declaration_spelling, location_spelling))
                })
                &&& t.name_not_empty()
                &&& t.spec_layout() == layout
                &&& t.spec_is_const() == is_const
            },
    {
        let name = Type::clang_type_name(action, declaration_spelling, location_spelling);
        match Type::kind_for_action(action, part, type_spelling) {
            Some(kind) => Some(Type::from_clang_parts(name, layout, kind, is_const)),
            None => None,
        }
    }

    /// What the template alias walk does with a child of the declaration,
    /// given its kind and whether its spelling is empty: parse the inner
    /// alias of an alias declaration, add a named type for a template type
    /// parameter that has a name, and skip anything else.
    pub fn template_child_action(kind: CursorKind, spelling_empty: bool) -> (a: TemplateChildAction)
        ensures
            a == spec_template_child_action(kind, spelling_empty),
    {
        match kind {
            CursorKind::TypeAliasDecl => TemplateChildAction::ParseAlias,
            CursorKind::TemplateTypeParameter => if spelling_empty {
                TemplateChildAction::Skip
            } else {
                TemplateChildAction::AddParam
            },
            _ => TemplateChildAction::Skip,
        }
    }

    /// The kind of a template alias, from what its declaration's children
    /// gave, in order: the inner alias is what the last alias declaration
    /// gave, and the template parameters are the named types added for the
    /// parameters, in order. Refused where no alias declaration gave an item,
    /// or where there is no parameter.
    pub fn template_alias_from_children(children: &Vec<TemplateAliasChild>) -> (r: Result<
        TypeKind,
        ParseError,
    >)
        ensures
            spec_last_alias(children@) is Err || spec_template_params(children@).len() == 0 ==> r
                == Err::<TypeKind, ParseError>(ParseError::Continue),
            spec_last_alias(children@) is Ok && spec_template_params(children@).len() > 0 ==> (r
                matches Ok(TypeKind::TemplateAlias(inner, args)) && inner == spec_last_alias(
                children@,
            )->Ok_0 && args@ == spec_template_params(children@)),
    {
        let mut inner: Result<ItemId, ParseError> = Err(ParseError::Continue);
        let mut args: Vec<ItemId> = Vec::new();
        let n = children.len();
        let mut i: usize = 0;
        assert(children@.take(0) =~= Seq::<TemplateAliasChild>::empty());
        while i < n
            invariant
                n == children@.len(),
                i <= n,
                inner == spec_last_alias(children@.take(i as int)),
                args@ == spec_template_params(children@.take(i as int)),
            decreases n - i,
        {
            assert(children@.take(i + 1).drop_last() =~= children@.take(i as int));
            match children[i] {
                TemplateAliasChild::AliasDecl(res) => {
                    inner = res;
                },
                TemplateAliasChild::Param(id) => {
                    args.push(id);
                },
                TemplateAliasChild::Ignored => {},
            }
            i = i + 1;
        }
        assert(children@.take(n as int) =~= children@);
        Type::template_alias_kind(inner, args)
    }

    /// The type that the conversion of a libclang type builds once it knows
    /// its kind: an empty name stands for no name.
    pub fn from_clang_parts(name: String, layout: Option<Layout>, kind: TypeKind, is_const: bool) -> (t:
        Type)
        ensures
            t.spec_name() == (if name@.len() == 0 {
                None::<String>
            } else {
                Some(name)
            }),
            t.spec_layout() == layout,
            t.spec_kind() == kind,
            t.spec_is_const() == is_const,
            t.name_not_empty(),
    {
        let name = if name.as_str().is_empty() {
            None
        } else {
            Some(name)
        };
        Type::new(name, layout, kind, is_const)
    }
}

/// The named-type query gives one answer whatever bound it is evaluated
/// with, once every reference of the type is below it.
#[verifier::spinoff_prover]
proof fn lemma_names_bound_irrelevant(ctx: BindgenContext, t: Type, name: Seq<char>, b1: nat, b2: nat)
    requires
        t.refs_ranked(ctx, b1),
        t.refs_ranked(ctx, b2),
    ensures
        t.names_below(ctx, name, b1) == t.names_below(ctx, name, b2),
{
    match t.spec_kind() {
        TypeKind::Function(sig) => {
            let p1 = exists|k: int|
                0 <= k < sig.argument_types@.len() && ctx.rank((#[trigger] sig.argument_types@[k]).1) < b1
                    && ctx@[sig.argument_types@[k].1.0 as int].names_below(
                    ctx,
                    name,
                    ctx.rank(sig.argument_types@[k].1),
                );
            let p2 = exists|k: int|
                0 <= k < sig.argument_types@.len() && ctx.rank((#[trigger] sig.argument_types@[k]).1) < b2
                    && ctx@[sig.argument_types@[k].1.0 as int].names_below(
                    ctx,
                    name,
                    ctx.rank(sig.argument_types@[k].1),
                );
            assert(p1 == p2);
        },
        TypeKind::TemplateAlias(_, args) => {
            assert(Type::any_names_below(ctx, args@, name, b1) == Type::any_names_below(
                ctx,
                args@,
                name,
                b2,
            ));
        },
        TypeKind::TemplateRef(_, args) => {
            assert(Type::any_names_below(ctx, args@, name, b1) == Type::any_names_below(
                ctx,
                args@,
                name,
                b2,
            ));
        },
        _ => {},
    }
}

/// The queries give one answer whatever bound they are evaluated with, once
/// every reference of the type is below it.
#[verifier::spinoff_prover]
proof fn lemma_bound_irrelevant(ctx: BindgenContext, t: Type, b1: nat, b2: nat)
    requires
        t.refs_ranked(ctx, b1),
        t.refs_ranked(ctx, b2),
    ensures
        t.vtable_below(ctx, b1) == t.vtable_below(ctx, b2),
        t.destructor_below(ctx, b1) == t.destructor_below(ctx, b2),
        t.debug_below(ctx, b1) == t.debug_below(ctx, b2),
        t.copy_below(ctx, b1) == t.copy_below(ctx, b2),
        t.copy_in_array_below(ctx, b1) == t.copy_in_array_below(ctx, b2),
        t.canonical_below(ctx, b1) == t.canonical_below(ctx, b2),
        t.unsized_below(ctx, b1) == t.unsized_below(ctx, b2),
        t.layout_below(ctx, b1) == t.layout_below(ctx, b2),
        forall|name: Seq<char>| #[trigger]
            t.names_below(ctx, name, b1) == t.names_below(ctx, name, b2),
{
    assert forall|name: Seq<char>| #[trigger]
        t.names_below(ctx, name, b1) == t.names_below(ctx, name, b2) by {
        lemma_names_bound_irrelevant(ctx, t, name, b1, b2);
    }
}

/// The type `id` of a well-formed context refers only to types of lower
/// rank, and answers every query as it does when evaluated with its rank as
/// bound.
proof fn lemma_entry(ctx: BindgenContext, id: ItemId)
    requires
        ctx.well_formed(),
        id.0 < ctx@.len(),
    ensures
        ctx@[id.0 as int].refs_ranked(ctx, ctx.rank(id)),
        ctx.rank(id) < ctx.rank_top(),
        ctx.resolves(ctx@[id.0 as int]),
        ctx@[id.0 as int].vtable_below(ctx, ctx.rank(id)) == ctx@[id.0 as int].spec_has_vtable(ctx),
        ctx@[id.0 as int].destructor_below(ctx, ctx.rank(id)) == ctx@[id.0 as int].spec_has_destructor(
            ctx,
        ),
        ctx@[id.0 as int].debug_below(ctx, ctx.rank(id)) == ctx@[id.0 as int].spec_can_derive_debug(
            ctx,
        ),
        ctx@[id.0 as int].copy_below(ctx, ctx.rank(id)) == ctx@[id.0 as int].spec_can_derive_copy(
            ctx,
        ),
        ctx@[id.0 as int].copy_in_array_below(ctx, ctx.rank(id))
            == ctx@[id.0 as int].spec_can_derive_copy_in_array(ctx),
        ctx@[id.0 as int].canonical_below(ctx, ctx.rank(id)) == ctx@[id.0 as int].spec_canonical_type(
            ctx,
        ),
        ctx@[id.0 as int].unsized_below(ctx, ctx.rank(id)) == ctx@[id.0 as int].spec_is_unsized(ctx),
        ctx@[id.0 as int].layout_below(ctx, ctx.rank(id)) == ctx@[id.0 as int].spec_layout_in(ctx),
        forall|name: Seq<char>| #[trigger]
            ctx@[id.0 as int].names_below(ctx, name, ctx.rank(id))
                == ctx@[id.0 as int].spec_signature_contains(ctx, name),
{
    let i = id.0 as int;
    assert(ctx@[i].refs_ranked(ctx, ctx.rank_at(i)));
    assert(ctx.rank_at(i) < ctx.rank_top());
    lemma_refs_ranked_monotone(ctx@[i], ctx, ctx.rank(id), ctx.rank_top());
    lemma_bound_irrelevant(ctx, ctx@[i], ctx.rank(id), ctx.rank_top());
}

/// A resolved reference is transparent: a type that is a resolved reference
/// to another, and has no layout of its own, answers every query as the
/// type that it refers to does.
pub proof fn lemma_resolved_ref_is_transparent(ctx: BindgenContext, t: Type)
    requires
        ctx.well_formed(),
        ctx.resolves(t),
        t.spec_kind() is ResolvedTypeRef,
        t.spec_layout() is None,
    ensures
        ({
            let inner = ctx@[t.spec_kind()->ResolvedTypeRef_0.0 as int];
            &&& t.spec_has_vtable(ctx) == inner.spec_has_vtable(ctx)
            &&& t.spec_has_destructor(ctx) == inner.spec_has_destructor(ctx)
            &&& t.spec_can_derive_debug(ctx) == inner.spec_can_derive_debug(ctx)
            &&& t.spec_can_derive_copy(ctx) == inner.spec_can_derive_copy(ctx)
            &&& t.spec_can_derive_copy_in_array(ctx) == inner.spec_can_derive_copy_in_array(ctx)
            &&& t.spec_canonical_type(ctx) == inner.spec_canonical_type(ctx)
            &&& t.spec_is_unsized(ctx) == inner.spec_is_unsized(ctx)
            &&& t.spec_layout_in(ctx) == inner.spec_layout_in(ctx)
            &&& forall|name: Seq<char>| #[trigger]
                t.spec_signature_contains(ctx, name) == inner.spec_signature_contains(ctx, name)
        }),
{
    let id = t.spec_kind()->ResolvedTypeRef_0;
    lemma_entry(ctx, id);
    let inner = ctx@[id.0 as int];
    assert forall|name: Seq<char>| #[trigger]
        t.spec_signature_contains(ctx, name) == inner.spec_signature_contains(ctx, name) by {
        assert(t.names_below(ctx, name, ctx.rank_top()) == inner.names_below(ctx, name, ctx.rank(id)));
        assert(inner.names_below(ctx, name, ctx.rank(id)) == inner.spec_signature_contains(ctx, name));
    }
}

/// Where the canonical type of a type found with the bound `bound` is, it
/// refers only to types of the context and is no alias, template alias,
/// template reference nor reference, resolved or not.
proof fn lemma_canonical_below(ctx: BindgenContext, t: Type, bound: nat)
    requires
        ctx.well_formed(),
        t.refs_ranked(ctx, bound),
        bound <= ctx.rank_top(),
        t.canonical_below(ctx, bound) is Some,
    ensures
        ctx.resolves(t.canonical_below(ctx, bound).unwrap()),
        Type::is_canonical_kind(t.canonical_below(ctx, bound).unwrap().spec_kind()),
    decreases bound,
{
    match t.spec_kind() {
        TypeKind::ResolvedTypeRef(inner) | TypeKind::Alias(_, inner) | TypeKind::TemplateAlias(
            inner,
            _,
        ) | TypeKind::TemplateRef(inner, _) => {
            lemma_entry(ctx, inner);
            lemma_canonical_below(ctx, ctx@[inner.0 as int], ctx.rank(inner));
        },
        _ => {},
    }
}

impl Type {
    /// Whether a type of this kind can come out of the conversion of a
    /// libclang type: it is not void, `nullptr_t`, an integer, a float, a
    /// named type, nor a reference, resolved or not (those come from the
    /// context's builtin types, from template parameters, and from resolving
    /// references).
    pub open spec fn is_converted_kind(kind: TypeKind) -> bool {
        !(kind is Void || kind is NullPtr || kind is Int || kind is Float || kind is Named
            || kind is ResolvedTypeRef || kind is UnresolvedTypeRef)
    }

    /// Whether a type of this kind is its own canonical type: it is no
    /// alias, template alias, template reference nor reference, resolved or
    /// not.
    pub open spec fn is_canonical_kind(kind: TypeKind) -> bool {
        !(kind is ResolvedTypeRef || kind is Alias || kind is TemplateAlias || kind is TemplateRef
            || kind is UnresolvedTypeRef)
    }
}

/// The canonical type of a type is its own canonical type, and is no alias,
/// template alias, template reference nor reference; and a type is an
/// integer type exactly where its canonical type is.
pub proof fn lemma_canonical_type_is_canonical(ctx: BindgenContext, t: Type)
    requires
        ctx.well_formed(),
        ctx.resolves(t),
        t.spec_canonical_type(ctx) is Some,
    ensures
        ({
            let c = t.spec_canonical_type(ctx).unwrap();
            &&& ctx.resolves(c)
            &&& Type::is_canonical_kind(c.spec_kind())
            &&& c.spec_canonical_type(ctx) == Some(c)
            &&& c.spec_is_integer(ctx) == t.spec_is_integer(ctx)
        }),
{
    lemma_canonical_below(ctx, t, ctx.rank_top());
}

/// Where a type is found with the bound `bound` to have a vtable, a
/// destructor, or no members, its canonical type is found so too.
proof fn lemma_canonical_answers_below(ctx: BindgenContext, t: Type, bound: nat)
    requires
        ctx.well_formed(),
        t.refs_ranked(ctx, bound),
        bound <= ctx.rank_top(),
        t.canonical_below(ctx, bound) is Some,
    ensures
        ({
            let c = t.canonical_below(ctx, bound).unwrap();
            &&& t.vtable_below(ctx, bound) == c.spec_has_vtable(ctx)
            &&& t.destructor_below(ctx, bound) == c.spec_has_destructor(ctx)
            &&& t.unsized_below(ctx, bound) == c.spec_is_unsized(ctx)
        }),
    decreases bound,
{
    match t.spec_kind() {
        TypeKind::ResolvedTypeRef(inner) | TypeKind::Alias(_, inner) | TypeKind::TemplateAlias(
            inner,
            _,
        ) | TypeKind::TemplateRef(inner, _) => {
            lemma_entry(ctx, inner);
            lemma_canonical_answers_below(ctx, ctx@[inner.0 as int], ctx.rank(inner));
        },
        _ => {
            lemma_refs_ranked_monotone(t, ctx, bound, ctx.rank_top());
            lemma_bound_irrelevant(ctx, t, bound, ctx.rank_top());
        },
    }
}

/// A type has a vtable, has a destructor, and has no members exactly where
/// its canonical type does.
pub proof fn lemma_canonical_type_answers(ctx: BindgenContext, t: Type)
    requires
        ctx.well_formed(),
        ctx.resolves(t),
        t.spec_canonical_type(ctx) is Some,
    ensures
        ({
            let c = t.spec_canonical_type(ctx).unwrap();
            &&& t.spec_has_vtable(ctx) == c.spec_has_vtable(ctx)
            &&& t.spec_has_destructor(ctx) == c.spec_has_destructor(ctx)
            &&& t.spec_is_unsized(ctx) == c.spec_is_unsized(ctx)
        }),
{
    lemma_canonical_answers_below(ctx, t, ctx.rank_top());
}

/// Named types and function types are builtin-or-named types; compound types
/// are not.
pub proof fn lemma_builtin_or_named(t: Type)
    ensures
        t.spec_kind() is Named ==> t.spec_is_builtin_or_named(),
        t.spec_kind() is Function ==> t.spec_is_builtin_or_named(),
        t.spec_kind() is Comp ==> !t.spec_is_builtin_or_named(),
{
}

/// The signature of a named type contains that named type.
pub proof fn lemma_named_signature_contains_itself(ctx: BindgenContext, t: Type)
    requires
        t.spec_kind() is Named,
    ensures
        t.spec_signature_contains(ctx, t.spec_kind()->Named_0@),
{
}

/// Rust derives common traits only for arrays of at most
/// `RUST_DERIVE_IN_ARRAY_LIMIT` items: a longer array can derive neither
/// `Debug` nor `Copy`, and an array without items has no members.
pub proof fn lemma_array_limits(ctx: BindgenContext, t: Type)
    requires
        t.spec_kind() is Array,
    ensures
        t.spec_kind()->Array_1 > RUST_DERIVE_IN_ARRAY_LIMIT ==> !t.spec_can_derive_debug(ctx)
            && !t.spec_can_derive_copy(ctx),
        t.spec_kind()->Array_1 == 0 ==> t.spec_is_unsized(ctx) == Some(true),
{
}

/// An array is unsized exactly where it has no items or its element type is
/// unsized; an array without items is unsized whatever its element type.
pub proof fn lemma_array_unsized(ctx: BindgenContext, t: Type)
    requires
        ctx.well_formed(),
        ctx.resolves(t),
        t.spec_kind() is Array,
        t.spec_kind()->Array_1 == 0 || ctx@[t.spec_kind()->Array_0.0 as int].spec_is_unsized(
            ctx,
        ) is Some,
    ensures
        t.spec_is_unsized(ctx) == Some(
            t.spec_kind()->Array_1 == 0 || ctx@[t.spec_kind()->Array_0.0 as int].spec_is_unsized(
                ctx,
            ).unwrap(),
        ),
{
    lemma_entry(ctx, t.spec_kind()->Array_0);
}

/// Aliases, template aliases, template references and resolved references
/// are transparent to sizedness: where the canonical type of a type is
/// found and the type's sizedness is defined, the type is unsized exactly
/// where its canonical type is.
pub proof fn lemma_unsized_follows_canonical(ctx: BindgenContext, t: Type)
    requires
        ctx.well_formed(),
        ctx.resolves(t),
        t.spec_canonical_type(ctx) is Some,
        t.spec_is_unsized(ctx) is Some,
    ensures
        t.spec_canonical_type(ctx).unwrap().spec_is_unsized(ctx) is Some,
        t.spec_is_unsized(ctx).unwrap() == t.spec_canonical_type(ctx).unwrap().spec_is_unsized(
            ctx,
        ).unwrap(),
{
    lemma_canonical_type_answers(ctx, t);
}

/// A type that refers only to types of rank below `b1` refers only to
/// types of rank below any `b2` at least `b1`.
pub proof fn lemma_refs_ranked_monotone(t: Type, ctx: BindgenContext, b1: nat, b2: nat)
    requires
        t.refs_ranked(ctx, b1),
        b1 <= b2,
    ensures
        t.refs_ranked(ctx, b2),
{
    lemma_refs_ranked_refers(t, ctx, b1);
    lemma_refs_ranked_from_refers(t, ctx, b2);
}

/// Every item that a type refers to is ranked as the type's ranking says.
pub proof fn lemma_refs_ranked_refers(t: Type, ctx: BindgenContext, b: nat)
    requires
        t.refs_ranked(ctx, b),
    ensures
        forall|j: ItemId| #[trigger] t.refers_to(j) ==> ctx.ranked_ref(j, b),
{
    assert forall|j: ItemId| #[trigger] t.refers_to(j) implies ctx.ranked_ref(j, b) by {
        match t.spec_kind() {
            TypeKind::TemplateAlias(x, args) => {
                if x != j {
                    let k = choose|k: int| 0 <= k < args@.len() && args@[k] == j;
                    assert(ctx.ranked_ref(args@[k], b));
                }
            },
            TypeKind::TemplateRef(x, args) => {
                if x != j {
                    let k = choose|k: int| 0 <= k < args@.len() && args@[k] == j;
                    assert(ctx.ranked_ref(args@[k], b));
                }
            },
            TypeKind::Function(sig) => {
                if sig.return_type != j {
                    let k = choose|k: int|
                        0 <= k < sig.argument_types@.len() && (#[trigger] sig.argument_types@[k]).1
                            == j;
                    assert(ctx.ranked_ref(sig.argument_types@[k].1, b));
                }
            },
            _ => {},
        }
    }
}

/// A type whose every referred item is ranked below `b` in `ctx` refers only
/// to types of `ctx` of rank below `b`.
pub proof fn lemma_refs_ranked_from_refers(t: Type, ctx: BindgenContext, b: nat)
    requires
        forall|j: ItemId| #[trigger] t.refers_to(j) ==> ctx.ranked_ref(j, b),
    ensures
        t.refs_ranked(ctx, b),
{
    match t.spec_kind() {
        TypeKind::Alias(_, x) => {
            assert(t.refers_to(x));
        },
        TypeKind::ResolvedTypeRef(x) => {
            assert(t.refers_to(x));
        },
        TypeKind::Pointer(x) => {
            assert(t.refers_to(x));
        },
        TypeKind::Array(x, _) => {
            assert(t.refers_to(x));
        },
        TypeKind::TemplateAlias(x, args) => {
            assert(t.refers_to(x));
            assert forall|k: int| 0 <= k < args@.len() implies ctx.ranked_ref(
                #[trigger] args@[k],
                b,
            ) by {
                assert(args@.contains(args@[k]));
                assert(t.refers_to(args@[k]));
            }
        },
        TypeKind::TemplateRef(x, args) => {
            assert(t.refers_to(x));
            assert forall|k: int| 0 <= k < args@.len() implies ctx.ranked_ref(
                #[trigger] args@[k],
                b,
            ) by {
                assert(args@.contains(args@[k]));
                assert(t.refers_to(args@[k]));
            }
        },
        TypeKind::Function(sig) => {
            assert(t.refers_to(sig.return_type));
            assert forall|k: int| 0 <= k < sig.argument_types@.len() implies ctx.ranked_ref(
                (#[trigger] sig.argument_types@[k]).1,
                b,
            ) by {
                assert(t.refers_to(sig.argument_types@[k].1));
            }
        },
        _ => {},
    }
}

/// Every item that a type with identifiers below `b` refers to has an
/// identifier below `b`.
pub proof fn lemma_refs_below_refers(t: Type, b: int)
    ensures
        t.refs_below(b) ==> forall|j: ItemId| #[trigger] t.refers_to(j) ==> j.0 < b,
{
    if t.refs_below(b) {
        assert forall|j: ItemId| #[trigger] t.refers_to(j) implies j.0 < b by {
            match t.spec_kind() {
                TypeKind::TemplateAlias(x, args) => {
                    if x != j {
                        let k = choose|k: int| 0 <= k < args@.len() && args@[k] == j;
                        assert(args@[k].0 < b);
                    }
                },
                TypeKind::TemplateRef(x, args) => {
                    if x != j {
                        let k = choose|k: int| 0 <= k < args@.len() && args@[k] == j;
                        assert(args@[k].0 < b);
                    }
                },
                TypeKind::Function(sig) => {
                    if sig.return_type != j {
                        let k = choose|k: int|
                            0 <= k < sig.argument_types@.len()
                                && (#[trigger] sig.argument_types@[k]).1 == j;
                        assert(sig.argument_types@[k].1.0 < b);
                    }
                },
                _ => {},
            }
        }
    }
}

/// A type whose every referred item has an identifier below `b` refers
/// only to identifiers below `b`.
pub proof fn lemma_refs_below_from_refers(t: Type, b: int)
    requires
        forall|j: ItemId| #[trigger] t.refers_to(j) ==> j.0 < b,
    ensures
        t.refs_below(b),
{
    match t.spec_kind() {
        TypeKind::Alias(_, x) => {
            assert(t.refers_to(x));
        },
        TypeKind::ResolvedTypeRef(x) => {
            assert(t.refers_to(x));
        },
        TypeKind::Pointer(x) => {
            assert(t.refers_to(x));
        },
        TypeKind::Array(x, _) => {
            assert(t.refers_to(x));
        },
        TypeKind::TemplateAlias(x, args) => {
            assert(t.refers_to(x));
            assert forall|k: int| 0 <= k < args@.len() implies (#[trigger] args@[k]).0 < b by {
                assert(args@.contains(args@[k]));
                assert(t.refers_to(args@[k]));
            }
        },
        TypeKind::TemplateRef(x, args) => {
            assert(t.refers_to(x));
            assert forall|k: int| 0 <= k < args@.len() implies (#[trigger] args@[k]).0 < b by {
                assert(args@.contains(args@[k]));
                assert(t.refers_to(args@[k]));
            }
        },
        TypeKind::Function(sig) => {
            assert(t.refers_to(sig.return_type));
            assert forall|k: int| 0 <= k < sig.argument_types@.len() implies (#[trigger] sig.argument_types@[k]).1.0
                < b by {
                assert(t.refers_to(sig.argument_types@[k].1));
            }
        },
        _ => {},
    }
}

impl Type {
    /// Whether some item that this type refers to, of rank below `bound`, is
    /// `to` or reaches it.
    pub open spec fn reaches_below(self, ctx: BindgenContext, to: ItemId, bound: nat) -> bool
        decreases bound,
    {
        exists|j: ItemId|
            #[trigger] self.refers_to(j) && ctx.rank(j) < bound && (j == to || ctx@[j.0 as int].reaches_below(
                ctx,
                to,
                ctx.rank(j),
            ))
    }

    /// Whether some type reachable from this type, following references of
    /// every kind, is the item `to`.
    pub(crate) fn reaches_within(&self, ctx: &BindgenContext, to: ItemId, Ghost(bound): Ghost<nat>) -> (r:
        bool)
        requires
            self.refs_ranked(*ctx, bound),
        ensures
            r == self.reaches_below(*ctx, to, bound),
        decreases bound, 2nat,
    {
        proof {
            lemma_reaches_below_cases(*self, *ctx, to, bound);
        }
        match &self.kind {
            TypeKind::Alias(_, x) => step_reaches(ctx, *x, to, Ghost(bound)),
            TypeKind::ResolvedTypeRef(x) => step_reaches(ctx, *x, to, Ghost(bound)),
            TypeKind::Pointer(x) => step_reaches(ctx, *x, to, Ghost(bound)),
            TypeKind::Array(x, _) => step_reaches(ctx, *x, to, Ghost(bound)),
            TypeKind::TemplateAlias(x, args) => {
                step_reaches(ctx, *x, to, Ghost(bound)) || ids_reach(ctx, args, to, Ghost(bound))
            },
            TypeKind::TemplateRef(x, args) => {
                step_reaches(ctx, *x, to, Ghost(bound)) || ids_reach(ctx, args, to, Ghost(bound))
            },
            TypeKind::Function(sig) => {
                step_reaches(ctx, sig.return_type, to, Ghost(bound)) || args_reach(
                    ctx,
                    sig,
                    to,
                    Ghost(bound),
                )
            },
            _ => false,
        }
    }
}

/// Whether the item `x`, of rank below `bound`, is `to` or reaches it.
pub open spec fn reach_step(ctx: BindgenContext, x: ItemId, to: ItemId, bound: nat) -> bool {
    ctx.rank(x) < bound && (x == to || ctx@[x.0 as int].reaches_below(ctx, to, ctx.rank(x)))
}

/// Reachability from a type, by the kind of the type.
proof fn lemma_reaches_below_cases(t: Type, ctx: BindgenContext, to: ItemId, bound: nat)
    ensures
        t.reaches_below(ctx, to, bound) == match t.spec_kind() {
            TypeKind::Alias(_, x) => reach_step(ctx, x, to, bound),
            TypeKind::ResolvedTypeRef(x) => reach_step(ctx, x, to, bound),
            TypeKind::Pointer(x) => reach_step(ctx, x, to, bound),
            TypeKind::Array(x, _) => reach_step(ctx, x, to, bound),
            TypeKind::TemplateAlias(x, args) => reach_step(ctx, x, to, bound) || exists|k: int|
                0 <= k < args@.len() && reach_step(ctx, #[trigger] args@[k], to, bound),
            TypeKind::TemplateRef(x, args) => reach_step(ctx, x, to, bound) || exists|k: int|
                0 <= k < args@.len() && reach_step(ctx, #[trigger] args@[k], to, bound),
            TypeKind::Function(sig) => reach_step(ctx, sig.return_type, to, bound) || exists|k: int|
                0 <= k < sig.argument_types@.len() && reach_step(
                    ctx,
                    (#[trigger] sig.argument_types@[k]).1,
                    to,
                    bound,
                ),
            _ => false,
        },
{
    if t.reaches_below(ctx, to, bound) {
        let j = choose|j: ItemId|
            #[trigger] t.refers_to(j) && ctx.rank(j) < bound && (j == to || ctx@[j.0 as int].reaches_below(
                ctx,
                to,
                ctx.rank(j),
            ));
        assert(reach_step(ctx, j, to, bound));
        match t.spec_kind() {
            TypeKind::TemplateAlias(x, args) => {
                if x != j {
                    let k = choose|k: int| 0 <= k < args@.len() && args@[k] == j;
                    assert(reach_step(ctx, args@[k], to, bound));
                }
            },
            TypeKind::TemplateRef(x, args) => {
                if x != j {
                    let k = choose|k: int| 0 <= k < args@.len() && args@[k] == j;
                    assert(reach_step(ctx, args@[k], to, bound));
                }
            },
            TypeKind::Function(sig) => {
                if sig.return_type != j {
                    let k = choose|k: int|
                        0 <= k < sig.argument_types@.len() && (#[trigger] sig.argument_types@[k]).1
                            == j;
                    assert(reach_step(ctx, sig.argument_types@[k].1, to, bound));
                }
            },
            _ => {},
        }
    } else {
        match t.spec_kind() {
            TypeKind::Alias(_, x) => {
                assert(t.refers_to(x));
            },
            TypeKind::ResolvedTypeRef(x) => {
                assert(t.refers_to(x));
            },
            TypeKind::Pointer(x) => {
                assert(t.refers_to(x));
            },
            TypeKind::Array(x, _) => {
                assert(t.refers_to(x));
            },
            TypeKind::TemplateAlias(x, args) => {
                assert(t.refers_to(x));
                assert forall|k: int| 0 <= k < args@.len() implies !reach_step(
                    ctx,
                    #[trigger] args@[k],
                    to,
                    bound,
                ) by {
                    assert(args@.contains(args@[k]));
                    assert(t.refers_to(args@[k]));
                }
            },
            TypeKind::TemplateRef(x, args) => {
                assert(t.refers_to(x));
                assert forall|k: int| 0 <= k < args@.len() implies !reach_step(
                    ctx,
                    #[trigger] args@[k],
                    to,
                    bound,
                ) by {
                    assert(args@.contains(args@[k]));
                    assert(t.refers_to(args@[k]));
                }
            },
            TypeKind::Function(sig) => {
                assert(t.refers_to(sig.return_type));
                assert forall|k: int| 0 <= k < sig.argument_types@.len() implies !reach_step(
                    ctx,
                    (#[trigger] sig.argument_types@[k]).1,
                    to,
                    bound,
                ) by {
                    assert(t.refers_to(sig.argument_types@[k].1));
                }
            },
            _ => {},
        }
    }
}

/// Whether the item `x` is `to` or reaches it.
fn step_reaches(ctx: &BindgenContext, x: ItemId, to: ItemId, Ghost(bound): Ghost<nat>) -> (r: bool)
    requires
        ctx.ranked_ref(x, bound),
    ensures
        r == reach_step(*ctx, x, to, bound),
    decreases bound, 0nat,
{
    x == to || ctx.resolve_type(x).reaches_within(ctx, to, Ghost(ctx.rank(x)))
}

/// Whether one of the items `ids` is `to` or reaches it.
fn ids_reach(ctx: &BindgenContext, ids: &Vec<ItemId>, to: ItemId, Ghost(bound): Ghost<nat>) -> (r:
    bool)
    requires
        forall|k: int| 0 <= k < ids@.len() ==> ctx.ranked_ref(#[trigger] ids@[k], bound),
    ensures
        r == exists|k: int| 0 <= k < ids@.len() && reach_step(*ctx, #[trigger] ids@[k], to, bound),
    decreases bound, 1nat,
{
    let n = ids.len();
    let mut i: usize = 0;
    while i < n
        invariant
            n == ids@.len(),
            i <= n,
            forall|k: int| 0 <= k < ids@.len() ==> ctx.ranked_ref(#[trigger] ids@[k], bound),
            forall|k: int| 0 <= k < i ==> !reach_step(*ctx, #[trigger] ids@[k], to, bound),
        decreases n - i,
    {
        if step_reaches(ctx, ids[i], to, Ghost(bound)) {
            assert(reach_step(*ctx, ids@[i as int], to, bound));
            return true;
        }
        i = i + 1;
    }
    false
}

/// Whether the type of one of the arguments of `sig` is `to` or reaches it.
fn args_reach(ctx: &BindgenContext, sig: &FunctionSig, to: ItemId, Ghost(bound): Ghost<nat>) -> (r:
    bool)
    requires
        forall|k: int|
            0 <= k < sig.argument_types@.len() ==> ctx.ranked_ref(
                (#[trigger] sig.argument_types@[k]).1,
                bound,
            ),
    ensures
        r == exists|k: int|
            0 <= k < sig.argument_types@.len() && reach_step(
                *ctx,
                (#[trigger] sig.argument_types@[k]).1,
                to,
                bound,
            ),
    decreases bound, 1nat,
{
    let n = sig.argument_types.len();
    let mut i: usize = 0;
    while i < n
        invariant
            n == sig.argument_types@.len(),
            i <= n,
            forall|k: int|
                0 <= k < sig.argument_types@.len() ==> ctx.ranked_ref(
                    (#[trigger] sig.argument_types@[k]).1,
                    bound,
                ),
            forall|k: int|
                0 <= k < i ==> !reach_step(*ctx, (#[trigger] sig.argument_types@[k]).1, to, bound),
        decreases n - i,
    {
        if step_reaches(ctx, sig.argument_types[i].1, to, Ghost(bound)) {
            assert(reach_step(*ctx, sig.argument_types@[i as int].1, to, bound));
            return true;
        }
        i = i + 1;
    }
    false
}

/// How a type answers whether it has a vtable: as the type that an alias,
/// template alias, template reference or resolved reference leads to; as
/// its compound type says; and never otherwise.
pub proof fn law_has_vtable(ctx: BindgenContext, t: Type)
    requires
        ctx.well_formed(),
        ctx.resolves(t),
    ensures
        t.spec_has_vtable(ctx) == match t.spec_kind() {
            TypeKind::TemplateRef(x, _) => ctx@[x.0 as int].spec_has_vtable(ctx),
            TypeKind::TemplateAlias(x, _) => ctx@[x.0 as int].spec_has_vtable(ctx),
            TypeKind::Alias(_, x) => ctx@[x.0 as int].spec_has_vtable(ctx),
            TypeKind::ResolvedTypeRef(x) => ctx@[x.0 as int].spec_has_vtable(ctx),
            TypeKind::Comp(info) => info.has_vtable,
            _ => false,
        },
{
    match t.spec_kind() {
        TypeKind::TemplateRef(x, _) => lemma_entry(ctx, x),
        TypeKind::TemplateAlias(x, _) => lemma_entry(ctx, x),
        TypeKind::Alias(_, x) => lemma_entry(ctx, x),
        TypeKind::ResolvedTypeRef(x) => lemma_entry(ctx, x),
        _ => {},
    }
}

/// How a type answers whether it has a destructor: as the type that an
/// alias, template alias, template reference or resolved reference leads
/// to; as its compound type says; and never otherwise.
pub proof fn law_has_destructor(ctx: BindgenContext, t: Type)
    requires
        ctx.well_formed(),
        ctx.resolves(t),
    ensures
        t.spec_has_destructor(ctx) == match t.spec_kind() {
            TypeKind::TemplateRef(x, _) => ctx@[x.0 as int].spec_has_destructor(ctx),
            TypeKind::TemplateAlias(x, _) => ctx@[x.0 as int].spec_has_destructor(ctx),
            TypeKind::Alias(_, x) => ctx@[x.0 as int].spec_has_destructor(ctx),
            TypeKind::ResolvedTypeRef(x) => ctx@[x.0 as int].spec_has_destructor(ctx),
            TypeKind::Comp(info) => info.has_destructor,
            _ => false,
        },
{
    match t.spec_kind() {
        TypeKind::TemplateRef(x, _) => lemma_entry(ctx, x),
        TypeKind::TemplateAlias(x, _) => lemma_entry(ctx, x),
        TypeKind::Alias(_, x) => lemma_entry(ctx, x),
        TypeKind::ResolvedTypeRef(x) => lemma_entry(ctx, x),
        _ => {},
    }
}

/// `Debug` can be derived for an array of at most
/// `RUST_DERIVE_IN_ARRAY_LIMIT` items of a type that can derive it; for an
/// alias, template alias or resolved reference where the type it leads to
/// can; for a compound type as it says for the layout of the type; and for
/// every other type (integers, floats, enums, pointers, functions, named
/// types, template references...).
pub proof fn law_can_derive_debug(ctx: BindgenContext, t: Type)
    requires
        ctx.well_formed(),
        ctx.resolves(t),
    ensures
        t.spec_can_derive_debug(ctx) == match t.spec_kind() {
            TypeKind::Array(x, len) => len <= RUST_DERIVE_IN_ARRAY_LIMIT && ctx@[x.0 as int].spec_can_derive_debug(ctx),
            TypeKind::ResolvedTypeRef(x) => ctx@[x.0 as int].spec_can_derive_debug(ctx),
            TypeKind::TemplateAlias(x, _) => ctx@[x.0 as int].spec_can_derive_debug(ctx),
            TypeKind::Alias(_, x) => ctx@[x.0 as int].spec_can_derive_debug(ctx),
            TypeKind::Comp(info) => info.spec_can_derive_debug(t.spec_layout_in(ctx)),
            _ => true,
        },
        !(t.spec_kind() is Array || t.spec_kind() is ResolvedTypeRef || t.spec_kind() is TemplateAlias
            || t.spec_kind() is Alias || t.spec_kind() is Comp) ==> t.spec_can_derive_debug(ctx),
{
    match t.spec_kind() {
        TypeKind::Array(x, _) => lemma_entry(ctx, x),
        TypeKind::ResolvedTypeRef(x) => lemma_entry(ctx, x),
        TypeKind::TemplateAlias(x, _) => lemma_entry(ctx, x),
        TypeKind::Alias(_, x) => lemma_entry(ctx, x),
        _ => {},
    }
}

/// `Copy` can be derived for an array of at most
/// `RUST_DERIVE_IN_ARRAY_LIMIT` items whose type can be copied in an array;
/// for an alias, template alias, template reference or resolved reference
/// where the type it leads to can; for a compound type as it says; and for
/// every other type.
pub proof fn law_can_derive_copy(ctx: BindgenContext, t: Type)
    requires
        ctx.well_formed(),
        ctx.resolves(t),
    ensures
        t.spec_can_derive_copy(ctx) == match t.spec_kind() {
            TypeKind::Array(x, len) => len <= RUST_DERIVE_IN_ARRAY_LIMIT
                && ctx@[x.0 as int].spec_can_derive_copy_in_array(ctx),
            TypeKind::ResolvedTypeRef(x) => ctx@[x.0 as int].spec_can_derive_copy(ctx),
            TypeKind::TemplateAlias(x, _) => ctx@[x.0 as int].spec_can_derive_copy(ctx),
            TypeKind::TemplateRef(x, _) => ctx@[x.0 as int].spec_can_derive_copy(ctx),
            TypeKind::Alias(_, x) => ctx@[x.0 as int].spec_can_derive_copy(ctx),
            TypeKind::Comp(info) => info.can_derive_copy,
            _ => true,
        },
{
    match t.spec_kind() {
        TypeKind::Array(x, _) => lemma_entry(ctx, x),
        TypeKind::ResolvedTypeRef(x) => lemma_entry(ctx, x),
        TypeKind::TemplateAlias(x, _) => lemma_entry(ctx, x),
        TypeKind::TemplateRef(x, _) => lemma_entry(ctx, x),
        TypeKind::Alias(_, x) => lemma_entry(ctx, x),
        _ => {},
    }
}

/// A type can be copied in an array where the type that an alias, template
/// alias, resolved reference or array element leads to can; a template
/// parameter never can; and any other type can exactly where it can derive
/// `Copy` (so a compound type exactly where it says it can be copied).
pub proof fn law_can_derive_copy_in_array(ctx: BindgenContext, t: Type)
    requires
        ctx.well_formed(),
        ctx.resolves(t),
    ensures
        t.spec_can_derive_copy_in_array(ctx) == match t.spec_kind() {
            TypeKind::ResolvedTypeRef(x) => ctx@[x.0 as int].spec_can_derive_copy_in_array(ctx),
            TypeKind::TemplateAlias(x, _) => ctx@[x.0 as int].spec_can_derive_copy_in_array(ctx),
            TypeKind::Alias(_, x) => ctx@[x.0 as int].spec_can_derive_copy_in_array(ctx),
            TypeKind::Array(x, _) => ctx@[x.0 as int].spec_can_derive_copy_in_array(ctx),
            TypeKind::Named(..) => false,
            _ => t.spec_can_derive_copy(ctx),
        },
        t.spec_kind() matches TypeKind::Comp(info) ==> t.spec_can_derive_copy_in_array(ctx)
            == info.can_derive_copy,
{
    law_can_derive_copy(ctx, t);
    match t.spec_kind() {
        TypeKind::Array(x, _) => lemma_entry(ctx, x),
        TypeKind::ResolvedTypeRef(x) => lemma_entry(ctx, x),
        TypeKind::TemplateAlias(x, _) => lemma_entry(ctx, x),
        TypeKind::TemplateRef(x, _) => lemma_entry(ctx, x),
        TypeKind::Alias(_, x) => lemma_entry(ctx, x),
        _ => {},
    }
}

/// The canonical type of an alias, template alias, template reference or
/// resolved reference is that of the type it leads to; a reference that is
/// not resolved yet has none; every other type is its own canonical type.
pub proof fn law_canonical_type(ctx: BindgenContext, t: Type)
    requires
        ctx.well_formed(),
        ctx.resolves(t),
    ensures
        t.spec_canonical_type(ctx) == match t.spec_kind() {
            TypeKind::ResolvedTypeRef(x) => ctx@[x.0 as int].spec_canonical_type(ctx),
            TypeKind::Alias(_, x) => ctx@[x.0 as int].spec_canonical_type(ctx),
            TypeKind::TemplateAlias(x, _) => ctx@[x.0 as int].spec_canonical_type(ctx),
            TypeKind::TemplateRef(x, _) => ctx@[x.0 as int].spec_canonical_type(ctx),
            TypeKind::UnresolvedTypeRef(..) => None,
            _ => Some(t),
        },
{
    match t.spec_kind() {
        TypeKind::ResolvedTypeRef(x) => lemma_entry(ctx, x),
        TypeKind::Alias(_, x) => lemma_entry(ctx, x),
        TypeKind::TemplateAlias(x, _) => lemma_entry(ctx, x),
        TypeKind::TemplateRef(x, _) => lemma_entry(ctx, x),
        _ => {},
    }
}

/// A type is an integer type exactly where it is not a reference that is
/// not resolved yet and its canonical type is an integer; so a compound
/// type, a float, a pointer... is never an integer type, and an integer
/// always is.
pub proof fn law_is_integer(ctx: BindgenContext, t: Type)
    requires
        ctx.well_formed(),
        ctx.resolves(t),
    ensures
        t.spec_is_integer(ctx) <==> !(t.spec_kind() is UnresolvedTypeRef) && (
        t.spec_canonical_type(ctx) matches Some(c) && c.spec_kind() is Int),
        t.spec_kind() is Int ==> t.spec_is_integer(ctx),
        Type::is_canonical_kind(t.spec_kind()) && !(t.spec_kind() is Int) ==> !t.spec_is_integer(ctx),
{
    law_canonical_type(ctx, t);
}

/// How a type answers whether it has no members: void does; a compound
/// type as it says; an array where it has no items, or where its element
/// type has none; an alias, template alias, template reference or resolved
/// reference as the type it leads to; a reference not resolved yet has no
/// answer; and every other type has members.
pub proof fn law_is_unsized(ctx: BindgenContext, t: Type)
    requires
        ctx.well_formed(),
        ctx.resolves(t),
    ensures
        t.spec_is_unsized(ctx) == match t.spec_kind() {
            TypeKind::Void => Some(true),
            TypeKind::Comp(ci) => Some(ci.is_unsized),
            TypeKind::Array(x, size) => if size == 0 {
                Some(true)
            } else {
                ctx@[x.0 as int].spec_is_unsized(ctx)
            },
            TypeKind::ResolvedTypeRef(x) => ctx@[x.0 as int].spec_is_unsized(ctx),
            TypeKind::Alias(_, x) => ctx@[x.0 as int].spec_is_unsized(ctx),
            TypeKind::TemplateAlias(x, _) => ctx@[x.0 as int].spec_is_unsized(ctx),
            TypeKind::TemplateRef(x, _) => ctx@[x.0 as int].spec_is_unsized(ctx),
            TypeKind::UnresolvedTypeRef(..) => None,
            _ => Some(false),
        },
{
    match t.spec_kind() {
        TypeKind::Array(x, _) => lemma_entry(ctx, x),
        TypeKind::ResolvedTypeRef(x) => lemma_entry(ctx, x),
        TypeKind::Alias(_, x) => lemma_entry(ctx, x),
        TypeKind::TemplateAlias(x, _) => lemma_entry(ctx, x),
        TypeKind::TemplateRef(x, _) => lemma_entry(ctx, x),
        _ => {},
    }
}

/// The layout of a type is its own where it has one; otherwise that of its
/// compound type, that of a pointer for pointers and block pointers, that
/// of the type a resolved reference leads to, and none for other types.
pub proof fn law_layout(ctx: BindgenContext, t: Type)
    requires
        ctx.well_formed(),
        ctx.resolves(t),
    ensures
        t.spec_layout_in(ctx) == match t.spec_layout() {
            Some(l) => Some(l),
            None => match t.spec_kind() {
                TypeKind::Comp(ci) => ci.layout,
                TypeKind::Pointer(..) => Some(Type::pointer_layout()),
                TypeKind::BlockPointer => Some(Type::pointer_layout()),
                TypeKind::ResolvedTypeRef(x) => ctx@[x.0 as int].spec_layout_in(ctx),
                _ => None,
            },
        },
{
    match t.spec_kind() {
        TypeKind::ResolvedTypeRef(x) => lemma_entry(ctx, x),
        _ => {},
    }
}

/// The signature of a named type mentions exactly that name; that of an
/// alias, a resolved reference, an array or a pointer mentions what the
/// type it leads to mentions; that of a function what its return type or
/// one of its argument types mentions; that of a template alias or
/// template reference what one of its template arguments mentions; that of
/// a compound type the template parameters it lists; and no other signature
/// mentions anything.
pub proof fn law_signature_contains(ctx: BindgenContext, t: Type, name: Seq<char>)
    requires
        ctx.well_formed(),
        ctx.resolves(t),
    ensures
        t.spec_signature_contains(ctx, name) == match t.spec_kind() {
            TypeKind::Named(n, _) => n@ == name,
            TypeKind::Alias(_, x) => ctx@[x.0 as int].spec_signature_contains(ctx, name),
            TypeKind::ResolvedTypeRef(x) => ctx@[x.0 as int].spec_signature_contains(ctx, name),
            TypeKind::Array(x, _) => ctx@[x.0 as int].spec_signature_contains(ctx, name),
            TypeKind::Pointer(x) => ctx@[x.0 as int].spec_signature_contains(ctx, name),
            TypeKind::Function(sig) => ctx@[sig.return_type.0 as int].spec_signature_contains(
                ctx,
                name,
            ) || exists|k: int|
                0 <= k < sig.argument_types@.len() && ctx@[(#[trigger] sig.argument_types@[k]).1.0 as int].spec_signature_contains(
                    ctx,
                    name,
                ),
            TypeKind::TemplateAlias(_, args) => exists|k: int|
                0 <= k < args@.len() && ctx@[(#[trigger] args@[k]).0 as int].spec_signature_contains(
                    ctx,
                    name,
                ),
            TypeKind::TemplateRef(_, args) => exists|k: int|
                0 <= k < args@.len() && ctx@[(#[trigger] args@[k]).0 as int].spec_signature_contains(
                    ctx,
                    name,
                ),
            TypeKind::Comp(ci) => ci.spec_signature_contains(name),
            _ => false,
        },
{
    match t.spec_kind() {
        TypeKind::Alias(_, x) => {
            lemma_entry(ctx, x);
            assert(ctx@[x.0 as int].names_below(ctx, name, ctx.rank(x))
                == ctx@[x.0 as int].spec_signature_contains(ctx, name));
        },
        TypeKind::ResolvedTypeRef(x) => {
            lemma_entry(ctx, x);
            assert(ctx@[x.0 as int].names_below(ctx, name, ctx.rank(x))
                == ctx@[x.0 as int].spec_signature_contains(ctx, name));
        },
        TypeKind::Array(x, _) => {
            lemma_entry(ctx, x);
            assert(ctx@[x.0 as int].names_below(ctx, name, ctx.rank(x))
                == ctx@[x.0 as int].spec_signature_contains(ctx, name));
        },
        TypeKind::Pointer(x) => {
            lemma_entry(ctx, x);
            assert(ctx@[x.0 as int].names_below(ctx, name, ctx.rank(x))
                == ctx@[x.0 as int].spec_signature_contains(ctx, name));
        },
        TypeKind::Function(sig) => {
            lemma_entry(ctx, sig.return_type);
            assert(ctx@[sig.return_type.0 as int].names_below(ctx, name, ctx.rank(sig.return_type))
                == ctx@[sig.return_type.0 as int].spec_signature_contains(ctx, name));
            let top = ctx.rank_top();
            let lhs = exists|k: int|
                0 <= k < sig.argument_types@.len() && ctx.rank(
                    (#[trigger] sig.argument_types@[k]).1,
                ) < top && ctx@[sig.argument_types@[k].1.0 as int].names_below(
                    ctx,
                    name,
                    ctx.rank(sig.argument_types@[k].1),
                );
            let rhs = exists|k: int|
                0 <= k < sig.argument_types@.len() && ctx@[(
                #[trigger] sig.argument_types@[k]).1.0 as int].spec_signature_contains(ctx, name);
            if lhs {
                let k = choose|k: int|
                    0 <= k < sig.argument_types@.len() && ctx.rank(
                        (#[trigger] sig.argument_types@[k]).1,
                    ) < top && ctx@[sig.argument_types@[k].1.0 as int].names_below(
                        ctx,
                        name,
                        ctx.rank(sig.argument_types@[k].1),
                    );
                lemma_entry(ctx, sig.argument_types@[k].1);
                assert(ctx@[sig.argument_types@[k].1.0 as int].spec_signature_contains(ctx, name));
            }
            if rhs {
                let k = choose|k: int|
                    0 <= k < sig.argument_types@.len() && ctx@[(
                    #[trigger] sig.argument_types@[k]).1.0 as int].spec_signature_contains(
                        ctx,
                        name,
                    );
                lemma_entry(ctx, sig.argument_types@[k].1);
                assert(ctx.rank(sig.argument_types@[k].1) < top);
                assert(ctx@[sig.argument_types@[k].1.0 as int].names_below(
                    ctx,
                    name,
                    ctx.rank(sig.argument_types@[k].1),
                ));
                assert(lhs);
            }
            assert(lhs == rhs);
        },
        TypeKind::TemplateAlias(_, args) => {
            lemma_any_names_public(ctx, t, args@, name);
        },
        TypeKind::TemplateRef(_, args) => {
            lemma_any_names_public(ctx, t, args@, name);
        },
        _ => {},
    }
}

/// Among types that a context resolves, `any_names_below` at the top rank
/// is whether one of the types mentions the name.
proof fn lemma_any_names_public(ctx: BindgenContext, t: Type, args: Seq<ItemId>, name: Seq<char>)
    requires
        ctx.well_formed(),
        forall|k: int| 0 <= k < args.len() ==> ctx.ranked_ref(#[trigger] args[k], ctx.rank_top()),
    ensures
        Type::any_names_below(ctx, args, name, ctx.rank_top()) == exists|k: int|
            0 <= k < args.len() && ctx@[(#[trigger] args[k]).0 as int].spec_signature_contains(
                ctx,
                name,
            ),
{
    let lhs = Type::any_names_below(ctx, args, name, ctx.rank_top());
    let rhs = exists|k: int|
        0 <= k < args.len() && ctx@[(#[trigger] args[k]).0 as int].spec_signature_contains(ctx, name);
    if lhs {
        let k = choose|k: int|
            0 <= k < args.len() && ctx.rank(#[trigger] args[k]) < ctx.rank_top() && ctx@[args[k].0 as int].names_below(
                ctx,
                name,
                ctx.rank(args[k]),
            );
        lemma_entry(ctx, args[k]);
        assert(ctx@[args[k].0 as int].spec_signature_contains(ctx, name));
    }
    if rhs {
        let k = choose|k: int|
            0 <= k < args.len() && ctx@[(#[trigger] args[k]).0 as int].spec_signature_contains(
                ctx,
                name,
            );
        lemma_entry(ctx, args[k]);
        assert(ctx@[args[k].0 as int].names_below(ctx, name, ctx.rank(args[k])));
        assert(ctx.rank(args[k]) < ctx.rank_top());
        assert(lhs);
    }
}

/// What the conversion of a libclang type decides: a type the context knows
/// is answered at once; it is converted through its canonical type only
/// where it is an unexposed type that differs from a valid canonical type;
/// an unexposed or invalid type that is not converted so is a function
/// where it has a return type, and else a template specialisation where it
/// has template arguments; and each other kind has its own conversion.
pub proof fn law_clang_type_action(f: ClangTypeFacts)
    ensures
        f.already_resolved matches Some(id) ==> spec_clang_type_action(f)
            == ClangTypeAction::AlreadyResolved(id),
        spec_clang_type_action(f) is AlreadyResolved ==> f.already_resolved is Some,
        spec_clang_type_action(f) is FromCanonical <==> f.already_resolved is None && f.kind
            == ClangTypeKind::Unexposed && f.canonical_differs && f.canonical_kind
            != ClangTypeKind::Invalid,
        f.already_resolved is None && (f.kind == ClangTypeKind::Unexposed || f.kind
            == ClangTypeKind::Invalid) && !(spec_clang_type_action(f) is FromCanonical) ==> {
            &&& f.has_ret_type ==> spec_clang_type_action(f) == ClangTypeAction::FunctionSig
            &&& !f.has_ret_type && f.num_template_args > 0 ==> spec_clang_type_action(f)
                == ClangTypeAction::TemplateSpecialization
            &&& !f.has_ret_type && f.num_template_args <= 0 && f.location_kind is None ==> (
            spec_clang_type_action(f) == if f.kind == ClangTypeKind::Unexposed {
                ClangTypeAction::Fail(ParseError::Recurse)
            } else {
                ClangTypeAction::Fail(ParseError::Continue)
            })
        },
        f.already_resolved is None && (f.kind == ClangTypeKind::Pointer || f.kind
            == ClangTypeKind::MemberPointer) ==> spec_clang_type_action(f) == ClangTypeAction::Pointer,
        f.already_resolved is None && (f.kind == ClangTypeKind::LValueReference || f.kind
            == ClangTypeKind::RValueReference) ==> spec_clang_type_action(f)
            == ClangTypeAction::Reference,
        f.already_resolved is None && (f.kind == ClangTypeKind::ConstantArray || f.kind
            == ClangTypeKind::Vector) ==> spec_clang_type_action(f) == ClangTypeAction::Array(
            f.num_elements,
        ),
        f.already_resolved is None && f.kind == ClangTypeKind::Complex ==> spec_clang_type_action(f)
            == ClangTypeAction::Array(2),
        f.already_resolved is None && (f.kind == ClangTypeKind::FunctionProto || f.kind
            == ClangTypeKind::FunctionNoProto) ==> spec_clang_type_action(f)
            == ClangTypeAction::FunctionSig,
        f.already_resolved is None && f.kind == ClangTypeKind::Record ==> spec_clang_type_action(f)
            == ClangTypeAction::Record,
        f.already_resolved is None && f.kind == ClangTypeKind::Typedef ==> spec_clang_type_action(f)
            == ClangTypeAction::Typedef,
{
}

/// Walking one more child of a template alias declaration: a named
/// parameter is appended to the template parameters and leaves the inner
/// alias as it was; an alias declaration becomes the inner alias and adds
/// no parameter; a skipped child changes nothing.
pub proof fn law_template_alias_walk(children: Seq<TemplateAliasChild>, child: TemplateAliasChild)
    ensures
        child matches TemplateAliasChild::Param(id) ==> spec_template_params(children.push(child))
            == spec_template_params(children).push(id) && spec_last_alias(children.push(child))
            == spec_last_alias(children),
        child matches TemplateAliasChild::AliasDecl(res) ==> spec_last_alias(children.push(child))
            == res && spec_template_params(children.push(child)) == spec_template_params(children),
        child is Ignored ==> spec_last_alias(children.push(child)) == spec_last_alias(children)
            && spec_template_params(children.push(child)) == spec_template_params(children),
        spec_last_alias(Seq::<TemplateAliasChild>::empty()) == Err::<ItemId, ParseError>(
            ParseError::Continue,
        ),
        spec_template_params(Seq::<TemplateAliasChild>::empty()).len() == 0,
{
    assert(children.push(child).drop_last() =~= children);
}

} // verus!
