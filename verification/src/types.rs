//! The declaration graph: the internal model shared by the resolver
//! and the generator.
//!
//! A graph is a sequence of [`Decl`] nodes in first-encountered order.
//! Inter-declaration edges are [`TypeRef::Named`] indices into that
//! sequence, never owned recursive structures, so self- and mutually
//! referential composites are represented without cycles of ownership.
//!
//! Every executable type has a ghost view (`...V`) over mathematical
//! sequences, through which all contracts speak.

use vstd::prelude::*;

verus! {

broadcast use vstd::seq::group_seq_axioms, vstd::std_specs::vec::group_vec_axioms;

/// The ten fixed integer kinds a C integer or enum can take.
#[derive(Debug, Clone, Copy, PartialEq, Eq, Structural)]
pub enum IKind {
    IUChar,
    ISChar,
    IUShort,
    IShort,
    IUInt,
    IInt,
    IULong,
    ILong,
    IULongLong,
    ILongLong,
}

/// Widths of C floating-point types.  Only the tag travels through the
/// model; the library never holds a floating-point value.
#[derive(Debug, Clone, Copy, PartialEq, Eq, Structural)]
pub enum FKind {
    FFloat,
    FDouble,
}

/// Stable identity of a declaration: source location plus name.
#[derive(Debug, Clone, PartialEq)]
pub struct DeclId {
    pub file: String,
    pub line: usize,
    pub name: String,
}

/// Ghost view of [`DeclId`].
pub struct DeclIdV {
    pub file: Seq<char>,
    pub line: usize,
    pub name: Seq<char>,
}

pub open spec fn id_view(id: DeclId) -> DeclIdV {
    DeclIdV { file: id.file@, line: id.line, name: id.name@ }
}

/// A resolved reference to a type: a primitive, a pointer, an array, a
/// function signature used as a type, or a named edge to another graph
/// node by index.
#[derive(Debug, PartialEq)]
pub enum TypeRef {
    Void,
    Bool,
    Int(IKind),
    Float(FKind),
    Ptr(Box<TypeRef>),
    Array(Box<TypeRef>, Option<usize>),
    Func(Box<Sig>),
    Named(usize),
}

/// A named parameter of a function signature.
#[derive(Debug, PartialEq)]
pub struct Par {
    pub name: String,
    pub ty: TypeRef,
}

/// A function signature: ordered parameters, return type, variadic flag.
#[derive(Debug, PartialEq)]
pub struct Sig {
    pub params: Vec<Par>,
    pub ret: TypeRef,
    pub variadic: bool,
}

/// Ghost view of [`TypeRef`].
#[verifier::ext_equal]
pub enum TypeRefV {
    Void,
    Bool,
    Int(IKind),
    Float(FKind),
    Ptr(Box<TypeRefV>),
    Array(Box<TypeRefV>, Option<usize>),
    Func(Box<SigV>),
    Named(int),
}

/// Ghost view of [`Sig`].
#[verifier::ext_equal]
pub struct SigV {
    pub params: Seq<(Seq<char>, TypeRefV)>,
    pub ret: Box<TypeRefV>,
    pub variadic: bool,
}

pub open spec fn ty_view(t: TypeRef) -> TypeRefV
    decreases t,
{
    match t {
        TypeRef::Void => TypeRefV::Void,
        TypeRef::Bool => TypeRefV::Bool,
        TypeRef::Int(k) => TypeRefV::Int(k),
        TypeRef::Float(k) => TypeRefV::Float(k),
        TypeRef::Ptr(inner) => TypeRefV::Ptr(Box::new(ty_view(*inner))),
        TypeRef::Array(el, len) => TypeRefV::Array(Box::new(ty_view(*el)), len),
        TypeRef::Func(sig) => TypeRefV::Func(Box::new(sig_view(*sig))),
        TypeRef::Named(i) => TypeRefV::Named(i as int),
    }
}

pub open spec fn params_view(ps: Seq<Par>) -> Seq<(Seq<char>, TypeRefV)>
    decreases ps,
{
    if ps.len() == 0 {
        Seq::empty()
    } else {
        seq![(ps[0].name@, ty_view(ps[0].ty))] + params_view(ps.drop_first())
    }
}

pub open spec fn sig_view(s: Sig) -> SigV
    decreases s,
{
    SigV { params: params_view(s.params@), ret: Box::new(ty_view(s.ret)), variadic: s.variadic }
}

/// Pointwise description of [`params_view`].
pub proof fn lemma_params_view(ps: Seq<Par>)
    ensures
        params_view(ps).len() == ps.len(),
        forall|i: int|
            0 <= i < ps.len() ==> #[trigger] params_view(ps)[i] == (ps[i].name@, ty_view(ps[i].ty)),
    decreases ps.len(),
{
    if ps.len() > 0 {
        lemma_params_view(ps.drop_first());
        assert forall|i: int| 0 <= i < ps.len() implies #[trigger] params_view(ps)[i] == (
            ps[i].name@,
            ty_view(ps[i].ty),
        ) by {
            if i > 0 {
                assert(params_view(ps)[i] == params_view(ps.drop_first())[i - 1]);
                assert(ps.drop_first()[i - 1] == ps[i]);
            }
        }
    }
}

/// A field of a composite: name (synthesized when the member is
/// anonymous), type, and bit width when the field is a bitfield.
#[derive(Debug, PartialEq)]
pub struct Field {
    pub name: String,
    pub ty: TypeRef,
    pub bits: Option<u32>,
}

#[verifier::ext_equal]
pub struct FieldV {
    pub name: Seq<char>,
    pub ty: TypeRefV,
    pub bits: Option<u32>,
}

pub open spec fn field_view(f: Field) -> FieldV {
    FieldV { name: f.name@, ty: ty_view(f.ty), bits: f.bits }
}

/// A struct or union: ordered fields plus flags.
#[derive(Debug, PartialEq)]
pub struct CompInfo {
    pub name: String,
    pub is_union: bool,
    pub anonymous: bool,
    pub fields: Vec<Field>,
}

#[verifier::ext_equal]
pub struct CompInfoV {
    pub name: Seq<char>,
    pub is_union: bool,
    pub anonymous: bool,
    pub fields: Seq<FieldV>,
}

pub open spec fn comp_fields_view(fs: Seq<Field>) -> Seq<FieldV> {
    fs.map(|i: int, f: Field| field_view(f))
}

pub open spec fn comp_view(c: CompInfo) -> CompInfoV {
    CompInfoV {
        name: c.name@,
        is_union: c.is_union,
        anonymous: c.anonymous,
        fields: comp_fields_view(c.fields@),
    }
}

/// One declared enum variant.
#[derive(Debug, Clone, PartialEq)]
pub struct EnumVariant {
    pub name: String,
    pub value: i64,
}

/// An enum: ordered variants plus the underlying integer kind.
#[derive(Debug, Clone, PartialEq)]
pub struct EnumInfo {
    pub name: String,
    pub kind: IKind,
    pub variants: Vec<EnumVariant>,
}

#[verifier::ext_equal]
pub struct EnumInfoV {
    pub name: Seq<char>,
    pub kind: IKind,
    pub variants: Seq<(Seq<char>, i64)>,
}

pub open spec fn enum_view(e: EnumInfo) -> EnumInfoV {
    EnumInfoV {
        name: e.name@,
        kind: e.kind,
        variants: e.variants@.map(|i: int, v: EnumVariant| (v.name@, v.value)),
    }
}

/// A function declaration.
#[derive(Debug, PartialEq)]
pub struct FuncInfo {
    pub name: String,
    pub sig: Sig,
}

#[verifier::ext_equal]
pub struct FuncInfoV {
    pub name: Seq<char>,
    pub sig: SigV,
}

pub open spec fn func_view(f: FuncInfo) -> FuncInfoV {
    FuncInfoV { name: f.name@, sig: sig_view(f.sig) }
}

/// A global variable: name, type, and whether it is mutable storage.
#[derive(Debug, PartialEq)]
pub struct VarInfo {
    pub name: String,
    pub ty: TypeRef,
    pub is_mutable: bool,
}

#[verifier::ext_equal]
pub struct VarInfoV {
    pub name: Seq<char>,
    pub ty: TypeRefV,
    pub is_mutable: bool,
}

pub open spec fn var_view(v: VarInfo) -> VarInfoV {
    VarInfoV { name: v.name@, ty: ty_view(v.ty), is_mutable: v.is_mutable }
}

/// A typedef: a named alias to another type.
#[derive(Debug, PartialEq)]
pub struct TypedefInfo {
    pub name: String,
    pub ty: TypeRef,
}

#[verifier::ext_equal]
pub struct TypedefInfoV {
    pub name: Seq<char>,
    pub ty: TypeRefV,
}

pub open spec fn typedef_view(t: TypedefInfo) -> TypedefInfoV {
    TypedefInfoV { name: t.name@, ty: ty_view(t.ty) }
}

/// A top-level semantic declaration: the closed variant set.
#[derive(Debug, PartialEq)]
pub enum Global {
    GType(TypedefInfo),
    GComp(CompInfo),
    GEnum(EnumInfo),
    GFunc(FuncInfo),
    GVar(VarInfo),
}

#[verifier::ext_equal]
pub enum GlobalV {
    GType(TypedefInfoV),
    GComp(CompInfoV),
    GEnum(EnumInfoV),
    GFunc(FuncInfoV),
    GVar(VarInfoV),
}

pub open spec fn global_view(g: Global) -> GlobalV {
    match g {
        Global::GType(t) => GlobalV::GType(typedef_view(t)),
        Global::GComp(c) => GlobalV::GComp(comp_view(c)),
        Global::GEnum(e) => GlobalV::GEnum(enum_view(e)),
        Global::GFunc(f) => GlobalV::GFunc(func_view(f)),
        Global::GVar(v) => GlobalV::GVar(var_view(v)),
    }
}

/// One node of the declaration graph.  `retained` records whether the
/// file-origin filter and builtin suppression keep this declaration in
/// the emitted output; unretained nodes stay in the graph so that
/// named references to them still resolve.
#[derive(Debug, PartialEq)]
pub struct Decl {
    pub id: DeclId,
    pub retained: bool,
    pub global: Global,
}

#[verifier::ext_equal]
pub struct DeclV {
    pub id: DeclIdV,
    pub retained: bool,
    pub global: GlobalV,
}

pub open spec fn decl_view(d: Decl) -> DeclV {
    DeclV { id: id_view(d.id), retained: d.retained, global: global_view(d.global) }
}

pub open spec fn decls_view(ds: Seq<Decl>) -> Seq<DeclV> {
    ds.map(|i: int, d: Decl| decl_view(d))
}

/// The declared name of a graph node.
pub open spec fn global_name(g: GlobalV) -> Seq<char> {
    match g {
        GlobalV::GType(t) => t.name,
        GlobalV::GComp(c) => c.name,
        GlobalV::GEnum(e) => e.name,
        GlobalV::GFunc(f) => f.name,
        GlobalV::GVar(v) => v.name,
    }
}

/// Every named reference inside `t` points into a graph of `n` nodes.
pub open spec fn ty_refs_bounded(t: TypeRefV, n: int) -> bool
    decreases t,
{
    match t {
        TypeRefV::Void => true,
        TypeRefV::Bool => true,
        TypeRefV::Int(_) => true,
        TypeRefV::Float(_) => true,
        TypeRefV::Ptr(inner) => ty_refs_bounded(*inner, n),
        TypeRefV::Array(el, _) => ty_refs_bounded(*el, n),
        TypeRefV::Func(sig) => sig_refs_bounded(*sig, n),
        TypeRefV::Named(i) => 0 <= i < n,
    }
}

pub open spec fn sig_refs_bounded(s: SigV, n: int) -> bool
    decreases s,
{
    &&& forall|i: int| 0 <= i < s.params.len() ==> ty_refs_bounded(#[trigger] s.params[i].1, n)
    &&& ty_refs_bounded(*s.ret, n)
}

/// All references of a graph node stay inside a graph of `n` nodes.
pub open spec fn global_refs_bounded(g: GlobalV, n: int) -> bool {
    match g {
        GlobalV::GType(t) => ty_refs_bounded(t.ty, n),
        GlobalV::GComp(c) => forall|i: int|
            0 <= i < c.fields.len() ==> ty_refs_bounded(#[trigger] c.fields[i].ty, n),
        GlobalV::GEnum(_) => true,
        GlobalV::GFunc(f) => sig_refs_bounded(f.sig, n),
        GlobalV::GVar(v) => ty_refs_bounded(v.ty, n),
    }
}

/// Well-formedness of a declaration graph: identities are unique and
/// no named reference dangles.
pub open spec fn graph_wf(ds: Seq<DeclV>) -> bool {
    &&& forall|i: int, j: int|
        0 <= i < j < ds.len() ==> !id_eq_v(#[trigger] ds[i].id, #[trigger] ds[j].id)
    &&& forall|i: int| 0 <= i < ds.len() ==> global_refs_bounded((#[trigger] ds[i]).global, ds.len() as int)
}

/// Equality of declaration identities.
pub open spec fn id_eq_v(a: DeclIdV, b: DeclIdV) -> bool {
    a.file == b.file && a.line == b.line && a.name == b.name
}

} // verus!
