# libbindgen types, verified

Bindgen's intermediate representation of C and C++ types, and the queries
that code generation asks of them, written in Verus.

- `src/ty.rs`: `Type`, `TypeKind`, `FloatKind`; the queries (vtable,
  destructor, derivable traits, canonical type, integer-ness, sizedness,
  layout, named types in a signature), each with a spec function and an exact
  contract; the decisions of the conversion of libclang types; the laws.
- `src/context.rs`: `BindgenContext`, which owns the types. Its invariant is
  that each type has a rank above the ranks of the types it refers to, so
  every query ends; references not resolved yet can later be resolved to any
  held type that does not lead back to them.
- `src/comp.rs`, `src/function.rs`, `src/enum_ty.rs`, `src/int_kind.rs`,
  `src/layout.rs`, `src/item.rs`, `src/clang.rs`, `src/parse.rs`: the other
  items that a type holds, as plain values.
- `app/lib.rs`: the conversion of a libclang type, which calls libclang and
  the parsers of the other items (through the `ClangFrontend` trait) around the
  verified decisions.
- `tests/`: layout tests of generated bindings, and tests of the library.
