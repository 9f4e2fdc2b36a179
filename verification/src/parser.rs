//! The type resolver: one pass over the cursor tree that builds the
//! declaration graph.
//!
//! Policy implemented here, each mirrored by a specification function:
//! file-origin match filtering, builtin suppression, the unknown-type
//! policy (strict failure or opaque substitution), uniform enum-kind
//! override, synthesized names for anonymous declarations, collapse of
//! re-declarations to the first-encountered node, and identity-based
//! resolution of named references, which terminates on cyclic and
//! self-referential inputs because no reference is ever expanded.

use vstd::prelude::*;

use crate::cursor::CField;
use crate::cursor::CParam;
use crate::cursor::CSig;
use crate::cursor::CType;
use crate::cursor::Cursor;
use crate::cursor::CursorKind;
use crate::strutil;
use crate::strutil::has_sub;
use crate::types::CompInfo;
use crate::types::CompInfoV;
use crate::types::Decl;
use crate::types::DeclId;
use crate::types::DeclIdV;
use crate::types::DeclV;
use crate::types::EnumInfo;
use crate::types::EnumInfoV;
use crate::types::EnumVariant;
use crate::types::Field;
use crate::types::FieldV;
use crate::types::FuncInfo;
use crate::types::FuncInfoV;
use crate::types::Global;
use crate::types::GlobalV;
use crate::types::IKind;
use crate::types::Par;
use crate::types::Sig;
use crate::types::SigV;
use crate::types::TypeRef;
use crate::types::TypeRefV;
use crate::types::TypedefInfo;
use crate::types::TypedefInfoV;
use crate::types::VarInfo;
use crate::types::VarInfoV;
use crate::types::decl_view;
use crate::types::decls_view;
use crate::types::field_view;
use crate::types::id_eq_v;
use crate::types::id_view;
use crate::types::lemma_params_view;
use crate::types::params_view;
use crate::types::sig_view;
use crate::types::ty_view;
use crate::Logger;

verus! {

broadcast use vstd::seq::group_seq_axioms, vstd::std_specs::vec::group_vec_axioms;

/// Options consumed by the resolver, shaped from the caller-facing
/// configuration by [`crate::parse_headers`].
#[derive(Debug)]
pub struct ClangParserOptions {
    pub builtin_names: Vec<String>,
    pub builtins: bool,
    pub match_pat: Vec<String>,
    pub emit_ast: bool,
    pub fail_on_unknown_type: bool,
    pub override_enum_ty: Option<IKind>,
    pub clang_args: Vec<String>,
}

/// A resolver-level failure; no partial graph is returned.
#[derive(Debug, Clone, PartialEq)]
pub enum ResolveError {
    /// A cursor's type cannot be classified and the policy is strict.
    UnknownType { decl: String },
    /// A named reference does not denote any declaration of the run.
    UnresolvedReference { decl: String, target: String },
}

/// Ghost view of [`ResolveError`].
#[verifier::ext_equal]
pub enum ResolveErrorV {
    UnknownType { decl: Seq<char> },
    UnresolvedReference { decl: Seq<char>, target: Seq<char> },
}

pub open spec fn resolve_error_view(e: ResolveError) -> ResolveErrorV {
    match e {
        ResolveError::UnknownType { decl } => ResolveErrorV::UnknownType { decl: decl@ },
        ResolveError::UnresolvedReference { decl, target } => ResolveErrorV::UnresolvedReference {
            decl: decl@,
            target: target@,
        },
    }
}

/// Failure local to the resolution of one type reference.
#[derive(Debug, PartialEq)]
pub enum TyErr {
    Unknown,
    Dangling(DeclId),
}

pub enum TyErrV {
    Unknown,
    Dangling(DeclIdV),
}

pub open spec fn ty_err_view(e: TyErr) -> TyErrV {
    match e {
        TyErr::Unknown => TyErrV::Unknown,
        TyErr::Dangling(id) => TyErrV::Dangling(id_view(id)),
    }
}

/// Views of a sequence of strings.
pub open spec fn strings_view(v: Seq<String>) -> Seq<Seq<char>> {
    v.map(|i: int, s: String| s@)
}

/// A declaration whose origin file matches the configured patterns is
/// retained: no pattern configured, empty origin, or some pattern
/// occurring in the origin file name.
pub open spec fn spec_retained(file: Seq<char>, pats: Seq<Seq<char>>) -> bool {
    ||| pats.len() == 0
    ||| file.len() == 0
    ||| exists|k: int| 0 <= k < pats.len() && has_sub(file, #[trigger] pats[k])
}

/// Membership of a name in a list of names.
pub open spec fn name_in(name: Seq<char>, names: Seq<Seq<char>>) -> bool {
    exists|k: int| 0 <= k < names.len() && #[trigger] names[k] == name
}

/// Whether a declaration is kept for emission: it passes the
/// file-origin filter, and builtin names are suppressed unless
/// builtins were requested.
pub open spec fn spec_keep(
    c: Cursor,
    pats: Seq<Seq<char>>,
    builtin_names: Seq<Seq<char>>,
    builtins: bool,
) -> bool {
    spec_retained(c.id.file@, pats) && (builtins || !name_in(c.id.name@, builtin_names))
}

/// Membership of an identity in a list of identities.
pub open spec fn id_in(ids: Seq<DeclIdV>, id: DeclIdV) -> bool {
    exists|k: int| 0 <= k < ids.len() && id_eq_v(#[trigger] ids[k], id)
}

/// Identities of the first `n` cursors, in first-encountered order,
/// with re-declarations collapsed.
pub open spec fn spec_ids_pre(cs: Seq<Cursor>, n: int) -> Seq<DeclIdV>
    decreases n,
{
    if n <= 0 {
        Seq::empty()
    } else {
        let pre = spec_ids_pre(cs, n - 1);
        let idv = id_view(cs[n - 1].id);
        if id_in(pre, idv) {
            pre
        } else {
            pre.push(idv)
        }
    }
}

pub open spec fn spec_ids(cs: Seq<Cursor>) -> Seq<DeclIdV> {
    spec_ids_pre(cs, cs.len() as int)
}

/// First position at or after `i` where `id` occurs in `ids`.
pub open spec fn id_index(ids: Seq<DeclIdV>, id: DeclIdV, i: int) -> Option<int>
    decreases ids.len() - i,
{
    if i < 0 || i >= ids.len() {
        None
    } else if id_eq_v(ids[i], id) {
        Some(i)
    } else {
        id_index(ids, id, i + 1)
    }
}

/// Resolution of one type reference against the run's identities.
/// An unknown type is substituted by void under the relaxed policy and
/// fails the run under the strict one; a named reference resolves to
/// the graph index of its identity.
pub open spec fn spec_resolve_ty(t: CType, ids: Seq<DeclIdV>, relaxed: bool) -> Result<
    TypeRefV,
    TyErrV,
>
    decreases t, 0int,
{
    match t {
        CType::Void => Ok(TypeRefV::Void),
        CType::Bool => Ok(TypeRefV::Bool),
        CType::Int(k) => Ok(TypeRefV::Int(k)),
        CType::Float(k) => Ok(TypeRefV::Float(k)),
        CType::Ptr(inner) => match spec_resolve_ty(*inner, ids, relaxed) {
            Ok(tv) => Ok(TypeRefV::Ptr(Box::new(tv))),
            Err(e) => Err(e),
        },
        CType::Array(el, len) => match spec_resolve_ty(*el, ids, relaxed) {
            Ok(tv) => Ok(TypeRefV::Array(Box::new(tv), len)),
            Err(e) => Err(e),
        },
        CType::Func(sig) => match spec_resolve_sig(*sig, ids, relaxed) {
            Ok(sv) => Ok(TypeRefV::Func(Box::new(sv))),
            Err(e) => Err(e),
        },
        CType::Ref(id) => match id_index(ids, id_view(id), 0) {
            Some(j) => Ok(TypeRefV::Named(j)),
            None => Err(TyErrV::Dangling(id_view(id))),
        },
        CType::Unknown => if relaxed {
            Ok(TypeRefV::Void)
        } else {
            Err(TyErrV::Unknown)
        },
    }
}

/// Resolution of the first `n` parameters of a signature.
pub open spec fn spec_resolve_params(
    ps: Seq<CParam>,
    n: int,
    ids: Seq<DeclIdV>,
    relaxed: bool,
) -> Result<Seq<(Seq<char>, TypeRefV)>, TyErrV>
    decreases ps, n,
{
    if n <= 0 || n > ps.len() {
        Ok(Seq::empty())
    } else {
        match spec_resolve_params(ps, n - 1, ids, relaxed) {
            Err(e) => Err(e),
            Ok(acc) => match spec_resolve_ty(ps[n - 1].ty, ids, relaxed) {
                Err(e) => Err(e),
                Ok(tv) => Ok(acc.push((ps[n - 1].name@, tv))),
            },
        }
    }
}

pub open spec fn spec_resolve_sig(s: CSig, ids: Seq<DeclIdV>, relaxed: bool) -> Result<
    SigV,
    TyErrV,
>
    decreases s, 1int,
{
    match spec_resolve_params(s.params@, s.params@.len() as int, ids, relaxed) {
        Err(e) => Err(e),
        Ok(ps) => match spec_resolve_ty(s.ret, ids, relaxed) {
            Err(e) => Err(e),
            Ok(r) => Ok(SigV { params: ps, ret: Box::new(r), variadic: s.variadic }),
        },
    }
}

/// Name synthesized for the `i`-th field when the member is anonymous.
pub open spec fn synth_field_name(i: int) -> Seq<char> {
    "unnamed_field"@ + strutil::dec_str(i as nat)
}

/// Name of the `i`-th field: declared, or synthesized when anonymous.
pub open spec fn spec_field_name(fs: Seq<CField>, i: int) -> Seq<char> {
    if fs[i].name@.len() == 0 {
        synth_field_name(i)
    } else {
        fs[i].name@
    }
}

/// Resolution of the first `n` fields of a composite.
pub open spec fn spec_resolve_fields(
    fs: Seq<CField>,
    n: int,
    ids: Seq<DeclIdV>,
    relaxed: bool,
) -> Result<Seq<FieldV>, TyErrV>
    decreases n,
{
    if n <= 0 {
        Ok(Seq::empty())
    } else {
        match spec_resolve_fields(fs, n - 1, ids, relaxed) {
            Err(e) => Err(e),
            Ok(acc) => match spec_resolve_ty(fs[n - 1].ty, ids, relaxed) {
                Err(e) => Err(e),
                Ok(tv) => Ok(
                    acc.push(
                        FieldV { name: spec_field_name(fs, n - 1), ty: tv, bits: fs[n - 1].bits },
                    ),
                ),
            },
        }
    }
}

/// Name synthesized for the declaration at graph index `j` when the
/// declaration is anonymous.
pub open spec fn synth_decl_name(j: int) -> Seq<char> {
    "Unnamed"@ + strutil::dec_str(j as nat)
}

/// Effective name of a declaration placed at graph index `j`.
pub open spec fn effective_name(c: Cursor, j: int) -> Seq<char> {
    if c.id.name@.len() == 0 {
        synth_decl_name(j)
    } else {
        c.id.name@
    }
}

/// The variants of an enum cursor, as declared.
pub open spec fn variants_of(vs: Seq<crate::cursor::CVariant>) -> Seq<(Seq<char>, i64)> {
    vs.map(|i: int, v: crate::cursor::CVariant| (v.name@, v.value))
}

/// The semantic node built for one cursor placed at graph index `j`.
pub open spec fn spec_global(
    c: Cursor,
    j: int,
    ids: Seq<DeclIdV>,
    relaxed: bool,
    override_enum_ty: Option<IKind>,
) -> Result<GlobalV, TyErrV> {
    let name = effective_name(c, j);
    match c.kind {
        CursorKind::StructDecl | CursorKind::UnionDecl => match spec_resolve_fields(
            c.fields@,
            c.fields@.len() as int,
            ids,
            relaxed,
        ) {
            Err(e) => Err(e),
            Ok(fields) => Ok(
                GlobalV::GComp(
                    CompInfoV {
                        name,
                        is_union: c.kind == CursorKind::UnionDecl,
                        anonymous: c.id.name@.len() == 0,
                        fields,
                    },
                ),
            ),
        },
        CursorKind::EnumDecl => Ok(
            GlobalV::GEnum(
                EnumInfoV {
                    name,
                    kind: match override_enum_ty {
                        Some(k) => k,
                        None => c.int_kind,
                    },
                    variants: variants_of(c.variants@),
                },
            ),
        ),
        CursorKind::TypedefDecl => match spec_resolve_ty(c.ty, ids, relaxed) {
            Err(e) => Err(e),
            Ok(tv) => Ok(GlobalV::GType(TypedefInfoV { name, ty: tv })),
        },
        CursorKind::FunctionDecl => match spec_resolve_ty(c.ty, ids, relaxed) {
            Err(e) => Err(e),
            Ok(TypeRefV::Func(sv)) => Ok(GlobalV::GFunc(FuncInfoV { name, sig: *sv })),
            Ok(_) => if relaxed {
                Ok(
                    GlobalV::GFunc(
                        FuncInfoV {
                            name,
                            sig: SigV {
                                params: Seq::empty(),
                                ret: Box::new(TypeRefV::Void),
                                variadic: false,
                            },
                        },
                    ),
                )
            } else {
                Err(TyErrV::Unknown)
            },
        },
        CursorKind::VarDecl => match spec_resolve_ty(c.ty, ids, relaxed) {
            Err(e) => Err(e),
            Ok(tv) => Ok(GlobalV::GVar(VarInfoV { name, ty: tv, is_mutable: c.is_mutable })),
        },
    }
}

/// Run-level error reported for a type-resolution failure inside the
/// declaration named `name`.
pub open spec fn spec_err(e: TyErrV, name: Seq<char>) -> ResolveErrorV {
    match e {
        TyErrV::Unknown => ResolveErrorV::UnknownType { decl: name },
        TyErrV::Dangling(id) => ResolveErrorV::UnresolvedReference { decl: name, target: id.name },
    }
}

/// The graph built from the first `n` cursors: one node per identity,
/// placed at the first encounter, or the first resolution failure.
pub open spec fn spec_parse_pre(
    cs: Seq<Cursor>,
    n: int,
    ids: Seq<DeclIdV>,
    pats: Seq<Seq<char>>,
    builtin_names: Seq<Seq<char>>,
    builtins: bool,
    relaxed: bool,
    override_enum_ty: Option<IKind>,
) -> Result<Seq<DeclV>, ResolveErrorV>
    decreases n,
{
    if n <= 0 {
        Ok(Seq::empty())
    } else {
        match spec_parse_pre(cs, n - 1, ids, pats, builtin_names, builtins, relaxed,
            override_enum_ty) {
            Err(e) => Err(e),
            Ok(acc) => {
                let c = cs[n - 1];
                if id_index(ids, id_view(c.id), 0) == Some(acc.len() as int) {
                    match spec_global(c, acc.len() as int, ids, relaxed, override_enum_ty) {
                        Err(e) => Err(spec_err(e, effective_name(c, acc.len() as int))),
                        Ok(g) => Ok(
                            acc.push(
                                DeclV {
                                    id: id_view(c.id),
                                    retained: spec_keep(c, pats, builtin_names, builtins),
                                    global: g,
                                },
                            ),
                        ),
                    }
                } else {
                    Ok(acc)
                }
            },
        }
    }
}

/// The declaration graph of a run, or its first resolution failure.
pub open spec fn spec_parse(
    cs: Seq<Cursor>,
    pats: Seq<Seq<char>>,
    builtin_names: Seq<Seq<char>>,
    builtins: bool,
    relaxed: bool,
    override_enum_ty: Option<IKind>,
) -> Result<Seq<DeclV>, ResolveErrorV> {
    spec_parse_pre(
        cs,
        cs.len() as int,
        spec_ids(cs),
        pats,
        builtin_names,
        builtins,
        relaxed,
        override_enum_ty,
    )
}

/// View of the resolver's result.
pub open spec fn parse_result_view(r: Result<Vec<Decl>, ResolveError>) -> Result<
    Seq<DeclV>,
    ResolveErrorV,
> {
    match r {
        Ok(ds) => Ok(decls_view(ds@)),
        Err(e) => Err(resolve_error_view(e)),
    }
}

/// Views of a sequence of identities.
pub open spec fn ids_view(s: Seq<DeclId>) -> Seq<DeclIdV> {
    s.map(|i: int, d: DeclId| id_view(d))
}

fn id_eq(a: &DeclId, b: &DeclId) -> (r: bool)
    ensures
        r == id_eq_v(id_view(*a), id_view(*b)),
{
    a.line == b.line && strutil::string_eq(&a.file, &b.file) && strutil::string_eq(
        &a.name,
        &b.name,
    )
}

fn clone_id(id: &DeclId) -> (r: DeclId)
    ensures
        r == *id,
{
    DeclId { file: id.file.clone(), line: id.line, name: id.name.clone() }
}

proof fn lemma_id_index_step(ids: Seq<DeclIdV>, id: DeclIdV, i: int)
    requires
        0 <= i < ids.len(),
        !id_eq_v(ids[i], id),
    ensures
        id_index(ids, id, i) == id_index(ids, id, i + 1),
{
}

fn find_id(ids: &Vec<DeclId>, id: &DeclId) -> (r: Option<usize>)
    ensures
        match r {
            Some(j) => id_index(ids_view(ids@), id_view(*id), 0) == Some(j as int),
            None => id_index(ids_view(ids@), id_view(*id), 0) is None,
        },
{
    let ghost idsv = ids_view(ids@);
    let ghost idv = id_view(*id);
    let mut i: usize = 0;
    while i < ids.len()
        invariant
            0 <= i <= ids.len(),
            idsv == ids_view(ids@),
            idv == id_view(*id),
            idsv.len() == ids@.len(),
            id_index(idsv, idv, 0) == id_index(idsv, idv, i as int),
        decreases ids.len() - i,
    {
        if id_eq(&ids[i], id) {
            assert(id_index(idsv, idv, i as int) == Some(i as int));
            return Some(i);
        }
        proof {
            lemma_id_index_step(idsv, idv, i as int);
        }
        i = i + 1;
    }
    None
}

fn has_id(ids: &Vec<DeclId>, id: &DeclId) -> (r: bool)
    ensures
        r == id_in(ids_view(ids@), id_view(*id)),
{
    let ghost idsv = ids_view(ids@);
    let ghost idv = id_view(*id);
    let mut i: usize = 0;
    while i < ids.len()
        invariant
            0 <= i <= ids.len(),
            idsv == ids_view(ids@),
            idv == id_view(*id),
            idsv.len() == ids@.len(),
            forall|k: int| 0 <= k < i ==> !id_eq_v(#[trigger] idsv[k], idv),
        decreases ids.len() - i,
    {
        if id_eq(&ids[i], id) {
            proof {
                assert(idsv[i as int] == id_view(ids@[i as int]));
                assert(id_eq_v(idsv[i as int], idv));
            }
            return true;
        }
        i = i + 1;
    }
    false
}

/// Identities of all cursors, first-encountered order, re-declarations
/// collapsed to the first.
fn collect_ids(cursors: &Vec<Cursor>) -> (r: Vec<DeclId>)
    ensures
        ids_view(r@) == spec_ids(cursors@),
{
    let mut ids: Vec<DeclId> = Vec::new();
    let mut i: usize = 0;
    while i < cursors.len()
        invariant
            0 <= i <= cursors.len(),
            ids_view(ids@) == spec_ids_pre(cursors@, i as int),
        decreases cursors.len() - i,
    {
        if !has_id(&ids, &cursors[i].id) {
            let ghost old_ids = ids@;
            ids.push(clone_id(&cursors[i].id));
            proof {
                assert(ids_view(ids@) =~= ids_view(old_ids).push(id_view(cursors@[i as int].id)));
            }
        }
        i = i + 1;
    }
    ids
}

/// View of one type-resolution result.
pub open spec fn ty_result_view(r: Result<TypeRef, TyErr>) -> Result<TypeRefV, TyErrV> {
    match r {
        Ok(t) => Ok(ty_view(t)),
        Err(e) => Err(ty_err_view(e)),
    }
}

fn clone_ty_err(e: &TyErr) -> (r: TyErr)
    ensures
        ty_err_view(r) == ty_err_view(*e),
{
    match e {
        TyErr::Unknown => TyErr::Unknown,
        TyErr::Dangling(id) => TyErr::Dangling(clone_id(id)),
    }
}

/// Resolves one type reference against the collected identities.
fn resolve_ty(t: &CType, ids: &Vec<DeclId>, relaxed: bool) -> (r: Result<TypeRef, TyErr>)
    ensures
        ty_result_view(r) == spec_resolve_ty(*t, ids_view(ids@), relaxed),
    decreases *t,
{
    match t {
        CType::Void => Ok(TypeRef::Void),
        CType::Bool => Ok(TypeRef::Bool),
        CType::Int(k) => Ok(TypeRef::Int(*k)),
        CType::Float(k) => Ok(TypeRef::Float(*k)),
        CType::Ptr(inner) => match resolve_ty(&**inner, ids, relaxed) {
            Ok(tv) => Ok(TypeRef::Ptr(Box::new(tv))),
            Err(e) => Err(e),
        },
        CType::Array(el, len) => match resolve_ty(&**el, ids, relaxed) {
            Ok(tv) => Ok(TypeRef::Array(Box::new(tv), *len)),
            Err(e) => Err(e),
        },
        CType::Func(sig) => match resolve_sig(&**sig, ids, relaxed) {
            Ok(sv) => Ok(TypeRef::Func(Box::new(sv))),
            Err(e) => Err(e),
        },
        CType::Ref(id) => match find_id(ids, id) {
            Some(j) => Ok(TypeRef::Named(j)),
            None => Err(TyErr::Dangling(clone_id(id))),
        },
        CType::Unknown => if relaxed {
            Ok(TypeRef::Void)
        } else {
            Err(TyErr::Unknown)
        },
    }
}

proof fn lemma_params_err(ps: Seq<CParam>, n: int, m: int, ids: Seq<DeclIdV>, relaxed: bool)
    requires
        0 <= n <= m <= ps.len(),
        spec_resolve_params(ps, n, ids, relaxed) is Err,
    ensures
        spec_resolve_params(ps, m, ids, relaxed) == spec_resolve_params(ps, n, ids, relaxed),
    decreases m - n,
{
    if m > n {
        lemma_params_err(ps, n, m - 1, ids, relaxed);
    }
}

/// Resolves a function signature.
fn resolve_sig(s: &CSig, ids: &Vec<DeclId>, relaxed: bool) -> (r: Result<Sig, TyErr>)
    ensures
        match r {
            Ok(sig) => spec_resolve_sig(*s, ids_view(ids@), relaxed) == Ok::<SigV, TyErrV>(
                sig_view(sig),
            ),
            Err(e) => spec_resolve_sig(*s, ids_view(ids@), relaxed) == Err::<SigV, TyErrV>(
                ty_err_view(e),
            ),
        },
    decreases *s,
{
    let ghost idsv = ids_view(ids@);
    let np = s.params.len();
    let mut pars: Vec<Par> = Vec::new();
    let mut i: usize = 0;
    while i < np
        invariant
            0 <= i <= np,
            np == s.params@.len(),
            idsv == ids_view(ids@),
            spec_resolve_params(s.params@, i as int, idsv, relaxed) == Ok::<
                Seq<(Seq<char>, TypeRefV)>,
                TyErrV,
            >(params_view(pars@)),
        decreases np - i,
    {
        let p = &s.params[i];
        match resolve_ty(&p.ty, ids, relaxed) {
            Ok(tv) => {
                let ghost old_pars = pars@;
                pars.push(Par { name: p.name.clone(), ty: tv });
                proof {
                    lemma_params_view(old_pars);
                    lemma_params_view(pars@);
                    assert(params_view(pars@) =~= params_view(old_pars).push(
                        (p.name@, ty_view(tv)),
                    ));
                }
            },
            Err(e) => {
                proof {
                    lemma_params_err(
                        s.params@,
                        i + 1,
                        s.params@.len() as int,
                        idsv,
                        relaxed,
                    );
                }
                return Err(e);
            },
        }
        i = i + 1;
    }
    match resolve_ty(&s.ret, ids, relaxed) {
        Ok(rt) => {
            let sig = Sig { params: pars, ret: rt, variadic: s.variadic };
            Ok(sig)
        },
        Err(e) => Err(e),
    }
}

proof fn lemma_fields_err(fs: Seq<CField>, n: int, m: int, ids: Seq<DeclIdV>, relaxed: bool)
    requires
        0 <= n <= m,
        spec_resolve_fields(fs, n, ids, relaxed) is Err,
    ensures
        spec_resolve_fields(fs, m, ids, relaxed) == spec_resolve_fields(fs, n, ids, relaxed),
    decreases m - n,
{
    if m > n {
        lemma_fields_err(fs, n, m - 1, ids, relaxed);
    }
}

/// The name of the `i`-th field, synthesized when anonymous.
fn field_name(fs: &Vec<CField>, i: usize) -> (r: String)
    requires
        i < fs@.len(),
    ensures
        r@ == spec_field_name(fs@, i as int),
{
    if fs[i].name.as_str().unicode_len() == 0 {
        let r = String::from_str("unnamed_field").concat(strutil::usize_to_string(i).as_str());
        r
    } else {
        fs[i].name.clone()
    }
}

/// Resolves the fields of a composite.
fn resolve_fields(fs: &Vec<CField>, ids: &Vec<DeclId>, relaxed: bool) -> (r: Result<
    Vec<Field>,
    TyErr,
>)
    ensures
        match r {
            Ok(fields) => spec_resolve_fields(fs@, fs@.len() as int, ids_view(ids@), relaxed)
                == Ok::<Seq<FieldV>, TyErrV>(fields@.map(|i: int, f: Field| field_view(f))),
            Err(e) => spec_resolve_fields(fs@, fs@.len() as int, ids_view(ids@), relaxed) == Err::<
                Seq<FieldV>,
                TyErrV,
            >(ty_err_view(e)),
        },
{
    let ghost idsv = ids_view(ids@);
    let mut fields: Vec<Field> = Vec::new();
    proof {
        assert(fields@.map(|k: int, f: Field| field_view(f)) =~= Seq::<FieldV>::empty());
    }
    let mut i: usize = 0;
    while i < fs.len()
        invariant
            0 <= i <= fs@.len(),
            idsv == ids_view(ids@),
            spec_resolve_fields(fs@, i as int, idsv, relaxed) == Ok::<Seq<FieldV>, TyErrV>(
                fields@.map(|k: int, f: Field| field_view(f)),
            ),
        decreases fs@.len() - i,
    {
        match resolve_ty(&fs[i].ty, ids, relaxed) {
            Ok(tv) => {
                let name = field_name(fs, i);
                let ghost old_fields = fields@;
                fields.push(Field { name, ty: tv, bits: fs[i].bits });
                proof {
                    assert(fields@.map(|k: int, f: Field| field_view(f)) =~= old_fields.map(
                        |k: int, f: Field| field_view(f),
                    ).push(
                        FieldV {
                            name: spec_field_name(fs@, i as int),
                            ty: ty_view(tv),
                            bits: fs@[i as int].bits,
                        },
                    ));
                }
            },
            Err(e) => {
                proof {
                    lemma_fields_err(fs@, i + 1, fs@.len() as int, idsv, relaxed);
                }
                return Err(e);
            },
        }
        i = i + 1;
    }
    Ok(fields)
}

/// The effective name of a declaration placed at graph index `j`.
fn effective_name_x(c: &Cursor, j: usize) -> (r: String)
    ensures
        r@ == effective_name(*c, j as int),
{
    if c.id.name.as_str().unicode_len() == 0 {
        String::from_str("Unnamed").concat(strutil::usize_to_string(j).as_str())
    } else {
        c.id.name.clone()
    }
}

/// Whether the origin file passes the configured match patterns.
fn match_file(file: &String, pats: &Vec<String>) -> (r: bool)
    ensures
        r == spec_retained(file@, strings_view(pats@)),
{
    let ghost patsv = strings_view(pats@);
    if pats.len() == 0 {
        return true;
    }
    if file.as_str().unicode_len() == 0 {
        return true;
    }
    let mut k: usize = 0;
    while k < pats.len()
        invariant
            0 <= k <= pats@.len(),
            patsv == strings_view(pats@),
            patsv.len() == pats@.len(),
            forall|p: int| 0 <= p < k ==> !has_sub(file@, #[trigger] patsv[p]),
        decreases pats@.len() - k,
    {
        if strutil::str_contains(file.as_str(), pats[k].as_str()) {
            assert(has_sub(file@, patsv[k as int]));
            return true;
        }
        k = k + 1;
    }
    assert(!spec_retained(file@, patsv));
    false
}

/// Membership of a name in a list of names.
fn name_in_x(name: &String, names: &Vec<String>) -> (r: bool)
    ensures
        r == name_in(name@, strings_view(names@)),
{
    let ghost namesv = strings_view(names@);
    let mut k: usize = 0;
    while k < names.len()
        invariant
            0 <= k <= names@.len(),
            namesv == strings_view(names@),
            namesv.len() == names@.len(),
            forall|p: int| 0 <= p < k ==> #[trigger] namesv[p] != name@,
        decreases names@.len() - k,
    {
        if strutil::string_eq(&names[k], name) {
            assert(namesv[k as int] == name@);
            return true;
        }
        k = k + 1;
    }
    false
}

/// Whether a declaration is kept for emission.
fn keep(c: &Cursor, options: &ClangParserOptions) -> (r: bool)
    ensures
        r == spec_keep(
            *c,
            strings_view(options.match_pat@),
            strings_view(options.builtin_names@),
            options.builtins,
        ),
{
    match_file(&c.id.file, &options.match_pat) && (options.builtins || !name_in_x(
        &c.id.name,
        &options.builtin_names,
    ))
}

/// Builds the semantic node for the cursor placed at graph index `j`.
fn build_global(
    c: &Cursor,
    j: usize,
    ids: &Vec<DeclId>,
    relaxed: bool,
    override_enum_ty: Option<IKind>,
) -> (r: Result<Global, TyErr>)
    ensures
        match r {
            Ok(g) => spec_global(*c, j as int, ids_view(ids@), relaxed, override_enum_ty) == Ok::<
                GlobalV,
                TyErrV,
            >(crate::types::global_view(g)),
            Err(e) => spec_global(*c, j as int, ids_view(ids@), relaxed, override_enum_ty)
                == Err::<GlobalV, TyErrV>(ty_err_view(e)),
        },
{
    let name = effective_name_x(c, j);
    match c.kind {
        CursorKind::StructDecl | CursorKind::UnionDecl => match resolve_fields(
            &c.fields,
            ids,
            relaxed,
        ) {
            Ok(fields) => {
                let anonymous = c.id.name.as_str().unicode_len() == 0;
                let info = CompInfo {
                    name,
                    is_union: matches!(c.kind, CursorKind::UnionDecl),
                    anonymous,
                    fields,
                };
                proof {
                    let cv = crate::types::comp_view(info);
                    let target = spec_resolve_fields(
                        c.fields@,
                        c.fields@.len() as int,
                        ids_view(ids@),
                        relaxed,
                    )->Ok_0;
                    assert forall|k: int| 0 <= k < cv.fields.len() implies cv.fields[k]
                        == target[k] by {
                    }
                    assert(cv.fields =~= target);
                    assert(cv =~= CompInfoV {
                        name: effective_name(*c, j as int),
                        is_union: c.kind == CursorKind::UnionDecl,
                        anonymous: c.id.name@.len() == 0,
                        fields: target,
                    });
                }
                Ok(Global::GComp(info))
            },
            Err(e) => Err(e),
        },
        CursorKind::EnumDecl => {
            let mut variants: Vec<EnumVariant> = Vec::new();
            let mut i: usize = 0;
            while i < c.variants.len()
                invariant
                    0 <= i <= c.variants@.len(),
                    variants@.len() == i,
                    forall|k: int|
                        0 <= k < i ==> (#[trigger] variants@[k]).name@ == c.variants@[k].name@
                            && variants@[k].value == c.variants@[k].value,
                decreases c.variants@.len() - i,
            {
                variants.push(
                    EnumVariant { name: c.variants[i].name.clone(), value: c.variants[i].value },
                );
                i = i + 1;
            }
            let kind = match override_enum_ty {
                Some(k) => k,
                None => c.int_kind,
            };
            let info = EnumInfo { name, kind, variants };
            proof {
                let ev = crate::types::enum_view(info);
                let target = variants_of(c.variants@);
                assert forall|k: int| 0 <= k < ev.variants.len() implies ev.variants[k]
                    == target[k] by {
                }
                assert(ev.variants =~= target);
                assert(ev =~= EnumInfoV {
                    name: effective_name(*c, j as int),
                    kind,
                    variants: target,
                });
            }
            Ok(Global::GEnum(info))
        },
        CursorKind::TypedefDecl => match resolve_ty(&c.ty, ids, relaxed) {
            Ok(tv) => Ok(Global::GType(TypedefInfo { name, ty: tv })),
            Err(e) => Err(e),
        },
        CursorKind::FunctionDecl => match resolve_ty(&c.ty, ids, relaxed) {
            Ok(TypeRef::Func(sig)) => Ok(Global::GFunc(FuncInfo { name, sig: *sig })),
            Ok(_) => if relaxed {
                let sig = Sig { params: Vec::new(), ret: TypeRef::Void, variadic: false };
                let g = Global::GFunc(FuncInfo { name, sig });
                proof {
                    assert(params_view(Seq::<Par>::empty()) =~= Seq::<(Seq<char>, TypeRefV)>::empty());
                    assert(crate::types::global_view(g) =~~= spec_global(
                        *c,
                        j as int,
                        ids_view(ids@),
                        relaxed,
                        override_enum_ty,
                    )->Ok_0);
                }
                Ok(g)
            } else {
                Err(TyErr::Unknown)
            },
            Err(e) => Err(e),
        },
        CursorKind::VarDecl => match resolve_ty(&c.ty, ids, relaxed) {
            Ok(tv) => Ok(Global::GVar(VarInfo { name, ty: tv, is_mutable: c.is_mutable })),
            Err(e) => Err(e),
        },
    }
}

proof fn lemma_parse_err(
    cs: Seq<Cursor>,
    n: int,
    m: int,
    ids: Seq<DeclIdV>,
    pats: Seq<Seq<char>>,
    builtin_names: Seq<Seq<char>>,
    builtins: bool,
    relaxed: bool,
    override_enum_ty: Option<IKind>,
)
    requires
        0 <= n <= m,
        spec_parse_pre(cs, n, ids, pats, builtin_names, builtins, relaxed, override_enum_ty)
            is Err,
    ensures
        spec_parse_pre(cs, m, ids, pats, builtin_names, builtins, relaxed, override_enum_ty)
            == spec_parse_pre(
            cs,
            n,
            ids,
            pats,
            builtin_names,
            builtins,
            relaxed,
            override_enum_ty,
        ),
    decreases m - n,
{
    if m > n {
        lemma_parse_err(cs, n, m - 1, ids, pats, builtin_names, builtins, relaxed,
            override_enum_ty);
    }
}

/// The resolver: one pass over the cursors that yields the declaration
/// graph, or the first resolution failure, which is also reported to
/// the logger.
pub fn parse<L: Logger>(
    cursors: &Vec<Cursor>,
    options: &ClangParserOptions,
    logger: &mut L,
) -> (r: Result<Vec<Decl>, ResolveError>)
    ensures
        parse_result_view(r) == spec_parse(
            cursors@,
            strings_view(options.match_pat@),
            strings_view(options.builtin_names@),
            options.builtins,
            !options.fail_on_unknown_type,
            options.override_enum_ty,
        ),
{
    let ghost pats = strings_view(options.match_pat@);
    let ghost builtin_names = strings_view(options.builtin_names@);
    let ghost override_ty = options.override_enum_ty;
    let relaxed = !options.fail_on_unknown_type;
    let ids = collect_ids(cursors);
    let ghost idsv = ids_view(ids@);
    let mut decls: Vec<Decl> = Vec::new();
    proof {
        assert(decls_view(decls@) =~= Seq::<DeclV>::empty());
    }
    let mut i: usize = 0;
    while i < cursors.len()
        invariant
            0 <= i <= cursors@.len(),
            idsv == ids_view(ids@),
            idsv == spec_ids(cursors@),
            relaxed == !options.fail_on_unknown_type,
            pats == strings_view(options.match_pat@),
            builtin_names == strings_view(options.builtin_names@),
            override_ty == options.override_enum_ty,
            spec_parse_pre(cursors@, i as int, idsv, pats, builtin_names, options.builtins,
                relaxed, override_ty) == Ok::<Seq<DeclV>, ResolveErrorV>(decls_view(decls@)),
            decls@.len() <= i,
        decreases cursors@.len() - i,
    {
        let c = &cursors[i];
        let first = match find_id(&ids, &c.id) {
            Some(j) => j == decls.len(),
            None => false,
        };
        if first {
            let j = decls.len();
            let retained = keep(c, options);
            match build_global(c, j, &ids, relaxed, options.override_enum_ty) {
                Ok(g) => {
                    let ghost old_decls = decls@;
                    decls.push(Decl { id: clone_id(&c.id), retained, global: g });
                    proof {
                        assert(decls_view(decls@) =~= decls_view(old_decls).push(
                            decl_view(decls@[decls@.len() - 1]),
                        ));
                    }
                },
                Err(e) => {
                    let name = effective_name_x(c, j);
                    let err = match e {
                        TyErr::Unknown => {
                            let msg = String::from_str("unknown type in declaration ").concat(
                                name.as_str(),
                            );
                            logger.error(msg.as_str());
                            ResolveError::UnknownType { decl: name }
                        },
                        TyErr::Dangling(target) => {
                            let msg = String::from_str("unresolved reference in declaration ")
                                .concat(name.as_str());
                            logger.error(msg.as_str());
                            ResolveError::UnresolvedReference { decl: name, target: target.name }
                        },
                    };
                    proof {
                        lemma_parse_err(cursors@, i + 1, cursors@.len() as int, idsv, pats,
                            builtin_names, options.builtins, relaxed, override_ty);
                    }
                    return Err(err);
                },
            }
        }
        i = i + 1;
    }
    Ok(decls)
}

} // verus!
