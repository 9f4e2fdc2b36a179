//! The consumed front-end interface: a tree of cursors, one per
//! top-level declaration, as the ingestion adapter hands it over.
//!
//! Each cursor carries its kind, declared name (possibly empty for
//! anonymous entities), source-file origin, and type information
//! sufficient to classify primitives, pointers, arrays and function
//! signatures.  A type the front end cannot classify arrives as
//! [`CType::Unknown`] and is subject to the unknown-type policy.

use vstd::prelude::*;

use crate::types::DeclId;
use crate::types::FKind;
use crate::types::IKind;

verus! {

/// Kind of a top-level declaration cursor.
#[derive(Debug, Clone, Copy, PartialEq, Eq, Structural)]
pub enum CursorKind {
    StructDecl,
    UnionDecl,
    EnumDecl,
    TypedefDecl,
    FunctionDecl,
    VarDecl,
}

/// Unresolved type information attached to a cursor: primitives are
/// classified, and a reference to another declaration is carried by
/// identity, to be resolved against the declaration graph.
#[derive(Debug, PartialEq)]
pub enum CType {
    Void,
    Bool,
    Int(IKind),
    Float(FKind),
    Ptr(Box<CType>),
    Array(Box<CType>, Option<usize>),
    Func(Box<CSig>),
    Ref(DeclId),
    Unknown,
}

/// An unresolved function parameter.
#[derive(Debug, PartialEq)]
pub struct CParam {
    pub name: String,
    pub ty: CType,
}

/// An unresolved function signature.
#[derive(Debug, PartialEq)]
pub struct CSig {
    pub params: Vec<CParam>,
    pub ret: CType,
    pub variadic: bool,
}

/// An unresolved field of a composite.
#[derive(Debug, PartialEq)]
pub struct CField {
    pub name: String,
    pub ty: CType,
    pub bits: Option<u32>,
}

/// An enum variant as declared in the source.
#[derive(Debug, Clone, PartialEq)]
pub struct CVariant {
    pub name: String,
    pub value: i64,
}

/// One top-level declaration produced by the front end.  `fields` is
/// read for composites, `variants` and `int_kind` for enums, `ty` for
/// typedefs, functions and variables, `is_mutable` for variables.
#[derive(Debug, PartialEq)]
pub struct Cursor {
    pub kind: CursorKind,
    pub id: DeclId,
    pub fields: Vec<CField>,
    pub variants: Vec<CVariant>,
    pub int_kind: IKind,
    pub ty: CType,
    pub is_mutable: bool,
}

} // verus!
