use vstd::prelude::*;

verus! {

/// The kinds of libclang types that the conversion into the intermediate
/// representation tells apart.
#[derive(Clone, Copy, Debug, PartialEq, Eq, Structural)]
pub enum ClangTypeKind {
    /// `CXType_Invalid`.
    Invalid,
    /// `CXType_Unexposed`.
    Unexposed,
    /// `CXType_Pointer`.
    Pointer,
    /// `CXType_MemberPointer`.
    MemberPointer,
    /// `CXType_BlockPointer`.
    BlockPointer,
    /// `CXType_LValueReference`.
    LValueReference,
    /// `CXType_RValueReference`.
    RValueReference,
    /// `CXType_VariableArray`.
    VariableArray,
    /// `CXType_DependentSizedArray`.
    DependentSizedArray,
    /// `CXType_IncompleteArray`.
    IncompleteArray,
    /// `CXType_FunctionNoProto`.
    FunctionNoProto,
    /// `CXType_FunctionProto`.
    FunctionProto,
    /// `CXType_Typedef`.
    Typedef,
    /// `CXType_Enum`.
    Enum,
    /// `CXType_Record`.
    Record,
    /// `CXType_Vector`.
    Vector,
    /// `CXType_ConstantArray`.
    ConstantArray,
    /// `CXType_Complex`.
    Complex,
    /// `CXType_Elaborated`.
    Elaborated,
    /// Any other kind.
    Other,
}

/// The kinds of libclang cursors that the conversion into the intermediate
/// representation tells apart.
#[derive(Clone, Copy, Debug, PartialEq, Eq, Structural)]
pub enum CursorKind {
    /// `CXCursor_ClassTemplate`.
    ClassTemplate,
    /// `CXCursor_ClassTemplatePartialSpecialization`.
    ClassTemplatePartialSpecialization,
    /// `CXCursor_TypeAliasTemplateDecl`.
    TypeAliasTemplateDecl,
    /// `CXCursor_TypeAliasDecl`.
    TypeAliasDecl,
    /// `CXCursor_TemplateTypeParameter`.
    TemplateTypeParameter,
    /// `CXCursor_TemplateRef`.
    TemplateRef,
    /// `CXCursor_TypeRef`.
    TypeRef,
    /// Any other kind.
    Other,
}

/// A libclang type, as the intermediate representation keeps it: its kind
/// and its spelling.
#[derive(Debug)]
pub struct ClangType {
    /// The kind of the type.
    pub kind: ClangTypeKind,
    /// How the type is spelled in the source.
    pub spelling: String,
}

/// A libclang cursor, as the intermediate representation keeps it: its kind
/// and its spelling.
#[derive(Debug)]
pub struct Cursor {
    /// The kind of the cursor.
    pub kind: CursorKind,
    /// How the cursor is spelled in the source.
    pub spelling: String,
}

} // verus!
