//! Bindgen's intermediate representation of C and C++ types, with the
//! queries that code generation asks of it, verified.

pub mod layout;
pub mod item;
pub mod int_kind;
pub mod enum_ty;
pub mod function;
pub mod comp;
pub mod clang;
pub mod ty;
pub mod context;
pub mod parse;
