use vstd::prelude::*;
use crate::item::ItemId;
use crate::ty::{Type, TypeKind, lemma_refs_ranked_from_refers, lemma_refs_ranked_refers, lemma_refs_below_refers};

verus! {

/// The context that owns the types of the intermediate representation: the
/// type with identifier `ItemId(i)` is the `i`-th one added.
///
/// Each type has a rank, above the ranks of the types it refers to, so that
/// following references always ends.
pub struct BindgenContext {
    types: Vec<Type>,
    ranks: Ghost<spec_fn(int) -> nat>,
    top: Ghost<nat>,
    codegen_phase: bool,
}

impl View for BindgenContext {
    type V = Seq<Type>;

    closed spec fn view(&self) -> Seq<Type> {
        self.types@
    }
}

impl BindgenContext {
    /// The rank of the `i`-th type.
    pub closed spec fn rank_at(self, i: int) -> nat {
        (self.ranks@)(i)
    }

    /// The rank of the item `id`.
    pub open spec fn rank(self, id: ItemId) -> nat {
        self.rank_at(id.0 as int)
    }

    /// A bound above the rank of every type of the context.
    pub closed spec fn rank_top(self) -> nat {
        self.top@
    }

    /// `id` is a type of the context, of rank below `bound`.
    pub open spec fn ranked_ref(self, id: ItemId, bound: nat) -> bool {
        id.0 < self@.len() && self.rank(id) < bound
    }

    /// Every type refers only to types of the context of a lower rank, and
    /// every rank is below the top.
    #[verifier::type_invariant]
    pub open spec fn well_formed(self) -> bool {
        &&& forall|i: int| 0 <= i < self@.len() ==> (#[trigger] self@[i]).refs_ranked(self, self.rank_at(i))
        &&& forall|i: int| 0 <= i < self@.len() ==> #[trigger] self.rank_at(i) < self.rank_top()
    }

    /// Every item that `ty` refers to is a type of this context.
    pub open spec fn resolves(self, ty: Type) -> bool {
        ty.refs_ranked(self, self.rank_top())
    }

    /// Whether code generation has started.
    pub closed spec fn spec_in_codegen_phase(self) -> bool {
        self.codegen_phase
    }

    /// Creates an empty context, before code generation.
    pub fn new() -> (ctx: Self)
        ensures
            ctx@ == Seq::<Type>::empty(),
            !ctx.spec_in_codegen_phase(),
    {
        BindgenContext {
            types: Vec::new(),
            ranks: Ghost(|i: int| 0nat),
            top: Ghost(0nat),
            codegen_phase: false,
        }
    }

    /// The number of types in the context.
    pub fn num_types(&self) -> (n: usize)
        ensures
            n == self@.len(),
    {
        self.types.len()
    }

    /// Whether code generation has started.
    pub fn in_codegen_phase(&self) -> (r: bool)
        ensures
            r == self.spec_in_codegen_phase(),
    {
        self.codegen_phase
    }

    /// Marks the start of code generation.
    pub fn enter_codegen_phase(&mut self)
        ensures
            final(self)@ == old(self)@,
            final(self).spec_in_codegen_phase(),
            forall|id: ItemId| #[trigger] final(self).rank(id) == old(self).rank(id),
            final(self).rank_top() == old(self).rank_top(),
    {
        proof {
            use_type_invariant(&*self);
            let next = BindgenContext {
                types: self.types,
                ranks: self.ranks,
                top: self.top,
                codegen_phase: true,
            };
            lemma_same_ranking(*self, next);
        }
        self.codegen_phase = true;
    }

    /// Adds `ty` to the context, and returns its identifier; or returns `None`,
    /// leaving the context as it was, where `ty` refers to an item that the
    /// context does not hold.
    pub fn add_type(&mut self, ty: Type) -> (r: Option<ItemId>)
        ensures
            old(self).resolves(ty) ==> r == Some(ItemId(old(self)@.len() as usize)) && final(self)@
                == old(self)@.push(ty),
            !old(self).resolves(ty) ==> r is None && final(self)@ == old(self)@,
            final(self).spec_in_codegen_phase() == old(self).spec_in_codegen_phase(),
    {
        proof {
            use_type_invariant(&*self);
        }
        let n = self.types.len();
        let ok = ty.refs_within(n);
        proof {
            lemma_refs_below_refers(ty, n as int);
            if ok {
                assert forall|j: ItemId| #[trigger] ty.refers_to(j) implies self.ranked_ref(
                    j,
                    self.top@,
                ) by {
                    assert(self.rank_at(j.0 as int) < self.rank_top());
                }
                lemma_refs_ranked_from_refers(ty, *self, self.top@);
            } else if self.resolves(ty) {
                lemma_resolves_refs_below(*self, ty);
            }
        }
        if ok {
            let ghost old_self = *self;
            let ghost old_ranks = self.ranks@;
            let ghost old_top = self.top@;
            let mut types = Vec::new();
            core::mem::swap(&mut types, &mut self.types);
            types.push(ty);
            let ghost new_ranks = |i: int|
                if i == n as int {
                    old_top
                } else {
                    old_ranks(i)
                };
            proof {
                let next = BindgenContext {
                    types: types,
                    ranks: Ghost(new_ranks),
                    top: Ghost(old_top + 1),
                    codegen_phase: old_self.codegen_phase,
                };
                lemma_push_ranking(old_self, next, ty);
            }
            let codegen_phase = self.codegen_phase;
            *self = BindgenContext {
                types: types,
                ranks: Ghost(new_ranks),
                top: Ghost(old_top + 1),
                codegen_phase: codegen_phase,
            };
            Some(ItemId(n))
        } else {
            None
        }
    }

    /// Whether `from` is `to`, or reaches it by following references.
    pub open spec fn reaches(self, from: ItemId, to: ItemId) -> bool {
        from == to || self@[from.0 as int].reaches_below(self, to, self.rank(from))
    }

    /// Whether `from` is `to`, or reaches it by following references.
    pub fn reaches_item(&self, from: ItemId, to: ItemId) -> (r: bool)
        requires
            from.0 < self@.len(),
        ensures
            r == self.reaches(from, to),
    {
        from == to || self.resolve_type(from).reaches_within(self, to, Ghost(self.rank(from)))
    }

    /// Resolves the reference `id`, not resolved yet, to the type `target`:
    /// the type `id` becomes a resolved reference to `target`, keeping its
    /// name, layout and constness. Refused, leaving the context as it was,
    /// where `id` or `target` is not held, where `id` is not a reference that
    /// is not resolved yet, or where `target` reaches `id`, which would make
    /// following references loop.
    pub fn resolve_type_ref(&mut self, id: ItemId, target: ItemId) -> (r: bool)
        ensures
            r == (id.0 < old(self)@.len() && target.0 < old(self)@.len() && old(
                self,
            )@[id.0 as int].spec_kind() is UnresolvedTypeRef && !old(self).reaches(target, id)),
            r ==> {
                &&& final(self)@.len() == old(self)@.len()
                &&& final(self)@[id.0 as int].spec_kind() == TypeKind::ResolvedTypeRef(target)
                &&& final(self)@[id.0 as int].spec_name() == old(self)@[id.0 as int].spec_name()
                &&& final(self)@[id.0 as int].spec_layout() == old(self)@[id.0 as int].spec_layout()
                &&& final(self)@[id.0 as int].spec_is_const() == old(
                    self,
                )@[id.0 as int].spec_is_const()
                &&& forall|i: int|
                    0 <= i < old(self)@.len() && i != id.0 ==> #[trigger] final(self)@[i] == old(
                        self,
                    )@[i]
            },
            !r ==> final(self)@ == old(self)@,
            final(self).spec_in_codegen_phase() == old(self).spec_in_codegen_phase(),
    {
        proof {
            use_type_invariant(&*self);
        }
        let n = self.types.len();
        if id.0 >= n || target.0 >= n {
            return false;
        }
        let unresolved = match self.types[id.0].kind() {
            TypeKind::UnresolvedTypeRef(..) => true,
            _ => false,
        };
        if !unresolved {
            return false;
        }
        if self.reaches_item(target, id) {
            return false;
        }
        let ghost old_self = *self;
        let ghost old_top = self.top@;
        let mut types = Vec::new();
        core::mem::swap(&mut types, &mut self.types);
        let mut t = types.remove(id.0);
        *t.kind_mut() = TypeKind::ResolvedTypeRef(target);
        types.insert(id.0, t);
        let ghost new_ranks = |i: int|
            if old_self.reaches(ItemId(i as usize), id) {
                old_self.rank_at(i) + old_top
            } else {
                old_self.rank_at(i)
            };
        proof {
            assert forall|i: int| 0 <= i < n && i != id.0 implies #[trigger] types@[i] == old_self@[i] by {
                if i < id.0 {
                    assert(types@[i] == old_self@.remove(id.0 as int)[i]);
                } else {
                    assert(types@[i] == old_self@.remove(id.0 as int)[i - 1]);
                }
            }
            let next = BindgenContext {
                types: types,
                ranks: Ghost(new_ranks),
                top: Ghost(2 * old_top),
                codegen_phase: old_self.codegen_phase,
            };
            lemma_resolve_ranking(old_self, next, id, target, n as int);
        }
        let codegen_phase = self.codegen_phase;
        *self = BindgenContext {
            types: types,
            ranks: Ghost(new_ranks),
            top: Ghost(2 * old_top),
            codegen_phase: codegen_phase,
        };
        true
    }

    /// The type with identifier `id`.
    pub fn resolve_type(&self, id: ItemId) -> (r: &Type)
        requires
            id.0 < self@.len(),
        ensures
            *r == self@[id.0 as int],
            r.refs_ranked(*self, self.rank(id)),
            self.rank(id) < self.rank_top(),
    {
        proof {
            use_type_invariant(self);
            assert(self@[id.0 as int].refs_ranked(*self, self.rank_at(id.0 as int)));
            assert(self.rank_at(id.0 as int) < self.rank_top());
        }
        &self.types[id.0]
    }
}

/// Two contexts with the same types and the same ranking are well formed
/// alike.
proof fn lemma_same_ranking(c1: BindgenContext, c2: BindgenContext)
    requires
        c1.well_formed(),
        c2.types@ == c1.types@,
        c2.ranks@ == c1.ranks@,
        c2.top@ == c1.top@,
    ensures
        c2.well_formed(),
{
    assert forall|i: int| 0 <= i < c2@.len() implies (#[trigger] c2@[i]).refs_ranked(
        c2,
        c2.rank_at(i),
    ) by {
        let b = c1.rank_at(i);
        assert(c1@[i].refs_ranked(c1, b));
        lemma_refs_ranked_refers(c1@[i], c1, b);
        assert forall|j: ItemId| #[trigger] c2@[i].refers_to(j) implies c2.ranked_ref(j, b) by {
            assert(c1.ranked_ref(j, b));
        }
        lemma_refs_ranked_from_refers(c2@[i], c2, b);
    }
    assert forall|i: int| 0 <= i < c2@.len() implies #[trigger] c2.rank_at(i) < c2.rank_top() by {
        assert(c1.rank_at(i) < c1.rank_top());
    }
}

/// Adding, at the top rank, a type that refers only to types already held
/// keeps a context well formed.
proof fn lemma_push_ranking(c1: BindgenContext, c2: BindgenContext, ty: Type)
    requires
        c1.well_formed(),
        ty.refs_ranked(c1, c1.top@),
        c2.types@ == c1.types@.push(ty),
        c2.ranks@ == (|i: int|
            if i == c1.types@.len() {
                c1.top@
            } else {
                (c1.ranks@)(i)
            }),
        c2.top@ == c1.top@ + 1,
    ensures
        c2.well_formed(),
{
    let n = c1.types@.len() as int;
    assert forall|i: int| 0 <= i < c2@.len() implies (#[trigger] c2@[i]).refs_ranked(
        c2,
        c2.rank_at(i),
    ) by {
        if i < n {
            let b = c1.rank_at(i);
            assert(c2@[i] == c1@[i]);
            assert(c1@[i].refs_ranked(c1, b));
            lemma_refs_ranked_refers(c1@[i], c1, b);
            assert forall|j: ItemId| #[trigger] c2@[i].refers_to(j) implies c2.ranked_ref(j, b) by {
                assert(c1.ranked_ref(j, b));
            }
            assert(c2.rank_at(i) == b);
            lemma_refs_ranked_from_refers(c2@[i], c2, b);
        } else {
            assert(c2@[i] == ty);
            lemma_refs_ranked_refers(ty, c1, c1.top@);
            assert forall|j: ItemId| #[trigger] ty.refers_to(j) implies c2.ranked_ref(
                j,
                c1.top@,
            ) by {
                assert(c1.ranked_ref(j, c1.top@));
            }
            assert(c2.rank_at(i) == c1.top@);
            lemma_refs_ranked_from_refers(ty, c2, c1.top@);
        }
    }
    assert forall|i: int| 0 <= i < c2@.len() implies #[trigger] c2.rank_at(i)
        < c2.rank_top() by {
        if i < n {
            assert(c1.rank_at(i) < c1.rank_top());
        }
    }
}

/// A type that the context resolves refers only to identifiers below the
/// number of types.
proof fn lemma_resolves_refs_below(ctx: BindgenContext, ty: Type)
    requires
        ctx.resolves(ty),
    ensures
        ty.refs_below(ctx@.len() as int),
{
    lemma_refs_ranked_refers(ty, ctx, ctx.rank_top());
    crate::ty::lemma_refs_below_from_refers(ty, ctx@.len() as int);
}

/// Making the reference `id` point to `target`, where `target` does not
/// reach `id`, keeps a context well formed once every type that reaches `id`
/// moves up by the top rank.
proof fn lemma_resolve_ranking(c1: BindgenContext, c2: BindgenContext, id: ItemId, target: ItemId, n: int)
    requires
        c1.well_formed(),
        n == c1@.len(),
        n <= usize::MAX,
        id.0 < n,
        target.0 < n,
        !c1.reaches(target, id),
        c2@.len() == n,
        c2@[id.0 as int].spec_kind() == TypeKind::ResolvedTypeRef(target),
        forall|i: int| 0 <= i < n && i != id.0 ==> #[trigger] c2@[i] == c1@[i],
        c2.ranks@ == (|i: int|
            if c1.reaches(ItemId(i as usize), id) {
                c1.rank_at(i) + c1.top@
            } else {
                c1.rank_at(i)
            }),
        c2.top@ == 2 * c1.top@,
    ensures
        c2.well_formed(),
{
    assert(ItemId(id.0 as int as usize) == id);
    assert(ItemId(target.0 as int as usize) == target);
    assert(c1.rank_at(id.0 as int) < c1.top@);
    assert forall|i: int| 0 <= i < c2@.len() implies (#[trigger] c2@[i]).refs_ranked(
        c2,
        c2.rank_at(i),
    ) by {
        assert(ItemId(i as usize).0 as int == i);
        if i == id.0 {
            assert(c1.rank_at(target.0 as int) < c1.top@);
            assert forall|j: ItemId| #[trigger] c2@[i].refers_to(j) implies c2.ranked_ref(
                j,
                c2.rank_at(i),
            ) by {
                assert(j == target);
            }
            lemma_refs_ranked_from_refers(c2@[i], c2, c2.rank_at(i));
        } else {
            let b = c1.rank_at(i);
            assert(c2@[i] == c1@[i]);
            assert(c1@[i].refs_ranked(c1, b));
            lemma_refs_ranked_refers(c1@[i], c1, b);
            assert forall|j: ItemId| #[trigger] c2@[i].refers_to(j) implies c2.ranked_ref(
                j,
                c2.rank_at(i),
            ) by {
                assert(c1.ranked_ref(j, b));
                assert(ItemId(j.0 as int as usize) == j);
                assert(c1.rank_at(j.0 as int) < c1.top@);
                if c1.reaches(j, id) {
                    assert(c1@[i].refers_to(j));
                    assert(c1@[i].reaches_below(c1, id, b));
                    assert(c1.reaches(ItemId(i as usize), id));
                }
            }
            lemma_refs_ranked_from_refers(c2@[i], c2, c2.rank_at(i));
        }
    }
    assert forall|i: int| 0 <= i < c2@.len() implies #[trigger] c2.rank_at(i) < c2.rank_top() by {
        assert(c1.rank_at(i) < c1.rank_top());
    }
}

/// A well-formed context resolves exactly the types whose references are
/// all identifiers of types that it holds.
pub proof fn lemma_resolves_iff_held(ctx: BindgenContext, t: Type)
    requires
        ctx.well_formed(),
    ensures
        ctx.resolves(t) <==> t.refs_below(ctx@.len() as int),
{
    if ctx.resolves(t) {
        lemma_resolves_refs_below(ctx, t);
    }
    if t.refs_below(ctx@.len() as int) {
        lemma_refs_below_refers(t, ctx@.len() as int);
        assert forall|j: ItemId| #[trigger] t.refers_to(j) implies ctx.ranked_ref(j, ctx.rank_top()) by {
            assert(ctx.rank_at(j.0 as int) < ctx.rank_top());
        }
        lemma_refs_ranked_from_refers(t, ctx, ctx.rank_top());
    }
}

} // verus!
