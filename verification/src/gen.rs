//! The code generator: maps the resolved declaration graph, in
//! first-encountered order, to target-language declaration nodes.
//!
//! Composites keep the source field order and bit widths; enums are
//! emitted natively or as typed constants and either representation
//! carries every (name, value) pair exactly; functions and mutable
//! globals go into one linkage-annotated block per configured link
//! target, with the configured symbol prefix applied to every symbol;
//! named references are resolved to names lazily, by graph lookup at
//! read time.  A name shared by two retained declarations is an error.

use vstd::prelude::*;

use crate::parser::strings_view;
use crate::strutil;
use crate::types::Decl;
use crate::types::DeclV;
use crate::types::EnumVariant;
use crate::types::FKind;
use crate::types::Global;
use crate::types::GlobalV;
use crate::types::IKind;
use crate::types::Sig;
use crate::types::SigV;
use crate::types::TypeRef;
use crate::types::TypeRefV;
use crate::types::decls_view;
use crate::types::global_name;
use crate::types::global_view;
use crate::types::lemma_params_view;
use crate::types::params_view;
use crate::types::sig_view;
use crate::types::ty_view;
use crate::BindgenOptions;
use crate::LinkType;

verus! {

broadcast use vstd::seq::group_seq_axioms, vstd::std_specs::vec::group_vec_axioms;

/// A target-language type.  A pointer to a function becomes a nullable
/// callable, since C permits null function pointers; a function
/// signature used directly (a typedef of a function type) stays a bare
/// callable.
#[derive(Debug, PartialEq)]
pub enum RType {
    Void,
    Bool,
    Int(IKind),
    Float(FKind),
    Ptr(Box<RType>),
    Array(Box<RType>, Option<usize>),
    NullableFn(Box<RSig>),
    BareFn(Box<RSig>),
    Named(String),
}

#[derive(Debug, PartialEq)]
pub struct RParam {
    pub name: String,
    pub ty: RType,
}

#[derive(Debug, PartialEq)]
pub struct RSig {
    pub params: Vec<RParam>,
    pub ret: RType,
    pub variadic: bool,
}

#[verifier::ext_equal]
pub enum RTypeV {
    Void,
    Bool,
    Int(IKind),
    Float(FKind),
    Ptr(Box<RTypeV>),
    Array(Box<RTypeV>, Option<usize>),
    NullableFn(Box<RSigV>),
    BareFn(Box<RSigV>),
    Named(Seq<char>),
}

#[verifier::ext_equal]
pub struct RSigV {
    pub params: Seq<(Seq<char>, RTypeV)>,
    pub ret: Box<RTypeV>,
    pub variadic: bool,
}

pub open spec fn rty_view(t: RType) -> RTypeV
    decreases t,
{
    match t {
        RType::Void => RTypeV::Void,
        RType::Bool => RTypeV::Bool,
        RType::Int(k) => RTypeV::Int(k),
        RType::Float(k) => RTypeV::Float(k),
        RType::Ptr(inner) => RTypeV::Ptr(Box::new(rty_view(*inner))),
        RType::Array(el, len) => RTypeV::Array(Box::new(rty_view(*el)), len),
        RType::NullableFn(s) => RTypeV::NullableFn(Box::new(rsig_view(*s))),
        RType::BareFn(s) => RTypeV::BareFn(Box::new(rsig_view(*s))),
        RType::Named(n) => RTypeV::Named(n@),
    }
}

pub open spec fn rparams_view(ps: Seq<RParam>) -> Seq<(Seq<char>, RTypeV)>
    decreases ps,
{
    if ps.len() == 0 {
        Seq::empty()
    } else {
        seq![(ps[0].name@, rty_view(ps[0].ty))] + rparams_view(ps.drop_first())
    }
}

pub open spec fn rsig_view(s: RSig) -> RSigV
    decreases s,
{
    RSigV { params: rparams_view(s.params@), ret: Box::new(rty_view(s.ret)), variadic: s.variadic }
}

/// Pointwise description of [`rparams_view`].
pub proof fn lemma_rparams_view(ps: Seq<RParam>)
    ensures
        rparams_view(ps).len() == ps.len(),
        forall|i: int|
            0 <= i < ps.len() ==> #[trigger] rparams_view(ps)[i] == (
                ps[i].name@,
                rty_view(ps[i].ty),
            ),
    decreases ps.len(),
{
    if ps.len() > 0 {
        lemma_rparams_view(ps.drop_first());
        assert forall|i: int| 0 <= i < ps.len() implies #[trigger] rparams_view(ps)[i] == (
            ps[i].name@,
            rty_view(ps[i].ty),
        ) by {
            if i > 0 {
                assert(rparams_view(ps)[i] == rparams_view(ps.drop_first())[i - 1]);
                assert(ps.drop_first()[i - 1] == ps[i]);
            }
        }
    }
}

/// A field of an emitted composite, order and bit width preserved.
#[derive(Debug, PartialEq)]
pub struct RField {
    pub name: String,
    pub ty: RType,
    pub bits: Option<u32>,
}

#[verifier::ext_equal]
pub struct RFieldV {
    pub name: Seq<char>,
    pub ty: RTypeV,
    pub bits: Option<u32>,
}

pub open spec fn rfield_view(f: RField) -> RFieldV {
    RFieldV { name: f.name@, ty: rty_view(f.ty), bits: f.bits }
}

pub open spec fn rfields_view(fs: Seq<RField>) -> Seq<RFieldV> {
    fs.map(|i: int, f: RField| rfield_view(f))
}

/// An externally-linked function symbol.
#[derive(Debug, PartialEq)]
pub struct RFunc {
    pub name: String,
    pub sig: RSig,
}

#[verifier::ext_equal]
pub struct RFuncV {
    pub name: Seq<char>,
    pub sig: RSigV,
}

pub open spec fn rfunc_view(f: RFunc) -> RFuncV {
    RFuncV { name: f.name@, sig: rsig_view(f.sig) }
}

pub open spec fn rfuncs_view(fs: Seq<RFunc>) -> Seq<RFuncV> {
    fs.map(|i: int, f: RFunc| rfunc_view(f))
}

/// An externally-linked global symbol.
#[derive(Debug, PartialEq)]
pub struct RStatic {
    pub name: String,
    pub ty: RType,
    pub is_mutable: bool,
}

#[verifier::ext_equal]
pub struct RStaticV {
    pub name: Seq<char>,
    pub ty: RTypeV,
    pub is_mutable: bool,
}

pub open spec fn rstatic_view(s: RStatic) -> RStaticV {
    RStaticV { name: s.name@, ty: rty_view(s.ty), is_mutable: s.is_mutable }
}

pub open spec fn rstatics_view(ss: Seq<RStatic>) -> Seq<RStaticV> {
    ss.map(|i: int, s: RStatic| rstatic_view(s))
}

/// One emitted target-language declaration.
#[derive(Debug, PartialEq)]
pub enum RDecl {
    /// A type alias.
    TypeAlias { name: String, ty: RType },
    /// A value type with layout-compatible field order.
    Composite { name: String, is_union: bool, derive_debug: bool, fields: Vec<RField> },
    /// A native enumerated type.
    Enum { name: String, repr: IKind, variants: Vec<EnumVariant> },
    /// An enum lowered to an alias plus typed integer constants.
    Constants { alias: String, repr: IKind, consts: Vec<EnumVariant> },
    /// One externally-linked grouping of functions and globals.
    ExternBlock { link: Option<(String, LinkType)>, fns: Vec<RFunc>, statics: Vec<RStatic> },
}

#[verifier::ext_equal]
pub enum RDeclV {
    TypeAlias { name: Seq<char>, ty: RTypeV },
    Composite { name: Seq<char>, is_union: bool, derive_debug: bool, fields: Seq<RFieldV> },
    Enum { name: Seq<char>, repr: IKind, variants: Seq<(Seq<char>, i64)> },
    Constants { alias: Seq<char>, repr: IKind, consts: Seq<(Seq<char>, i64)> },
    ExternBlock {
        link: Option<(Seq<char>, LinkType)>,
        fns: Seq<RFuncV>,
        statics: Seq<RStaticV>,
    },
}

pub open spec fn variant_pairs_view(vs: Seq<EnumVariant>) -> Seq<(Seq<char>, i64)> {
    vs.map(|i: int, v: EnumVariant| (v.name@, v.value))
}

pub open spec fn rdecl_view(d: RDecl) -> RDeclV {
    match d {
        RDecl::TypeAlias { name, ty } => RDeclV::TypeAlias { name: name@, ty: rty_view(ty) },
        RDecl::Composite { name, is_union, derive_debug, fields } => RDeclV::Composite {
            name: name@,
            is_union,
            derive_debug,
            fields: rfields_view(fields@),
        },
        RDecl::Enum { name, repr, variants } => RDeclV::Enum {
            name: name@,
            repr,
            variants: variant_pairs_view(variants@),
        },
        RDecl::Constants { alias, repr, consts } => RDeclV::Constants {
            alias: alias@,
            repr,
            consts: variant_pairs_view(consts@),
        },
        RDecl::ExternBlock { link, fns, statics } => RDeclV::ExternBlock {
            link: match link {
                Some((lib, kind)) => Some((lib@, kind)),
                None => None,
            },
            fns: rfuncs_view(fns@),
            statics: rstatics_view(statics@),
        },
    }
}

pub open spec fn rdecls_view(ds: Seq<RDecl>) -> Seq<RDeclV> {
    ds.map(|i: int, d: RDecl| rdecl_view(d))
}

/// A generation-level failure; nothing is emitted.
#[derive(Debug, Clone, PartialEq)]
pub enum GenError {
    /// Two retained declarations resolve to the same emitted name.
    NameCollision { name: String },
}

#[verifier::ext_equal]
pub enum GenErrorV {
    NameCollision { name: Seq<char> },
}

pub open spec fn gen_error_view(e: GenError) -> GenErrorV {
    match e {
        GenError::NameCollision { name } => GenErrorV::NameCollision { name: name@ },
    }
}

/// The name a graph node resolves to at read time: its declared name,
/// or nothing when the index dangles.
pub open spec fn spec_named(i: int, ds: Seq<DeclV>) -> Seq<char> {
    if 0 <= i < ds.len() {
        global_name(ds[i].global)
    } else {
        Seq::empty()
    }
}

/// Mapping of a resolved type reference to a target-language type.
pub open spec fn spec_rtype(t: TypeRefV, ds: Seq<DeclV>) -> RTypeV
    decreases t, 0int,
{
    match t {
        TypeRefV::Void => RTypeV::Void,
        TypeRefV::Bool => RTypeV::Bool,
        TypeRefV::Int(k) => RTypeV::Int(k),
        TypeRefV::Float(k) => RTypeV::Float(k),
        TypeRefV::Ptr(inner) => match *inner {
            TypeRefV::Func(s) => RTypeV::NullableFn(Box::new(spec_rsig(*s, ds))),
            _ => RTypeV::Ptr(Box::new(spec_rtype(*inner, ds))),
        },
        TypeRefV::Array(el, len) => RTypeV::Array(Box::new(spec_rtype(*el, ds)), len),
        TypeRefV::Func(s) => RTypeV::BareFn(Box::new(spec_rsig(*s, ds))),
        TypeRefV::Named(i) => RTypeV::Named(spec_named(i, ds)),
    }
}

pub open spec fn spec_rparams(
    ps: Seq<(Seq<char>, TypeRefV)>,
    n: int,
    ds: Seq<DeclV>,
) -> Seq<(Seq<char>, RTypeV)>
    decreases ps, n,
{
    if n <= 0 || n > ps.len() {
        Seq::empty()
    } else {
        spec_rparams(ps, n - 1, ds).push((ps[n - 1].0, spec_rtype(ps[n - 1].1, ds)))
    }
}

pub open spec fn spec_rsig(s: SigV, ds: Seq<DeclV>) -> RSigV
    decreases s, 1int,
{
    RSigV {
        params: spec_rparams(s.params, s.params.len() as int, ds),
        ret: Box::new(spec_rtype(*s.ret, ds)),
        variadic: s.variadic,
    }
}

pub open spec fn spec_rfields(fs: Seq<crate::types::FieldV>, n: int, ds: Seq<DeclV>) -> Seq<
    RFieldV,
>
    decreases n,
{
    if n <= 0 {
        Seq::empty()
    } else {
        spec_rfields(fs, n - 1, ds).push(
            RFieldV { name: fs[n - 1].name, ty: spec_rtype(fs[n - 1].ty, ds), bits: fs[n - 1].bits },
        )
    }
}

/// The declaration emitted for one graph node of a type-like category
/// (alias, composite, enum), or nothing when the node is unretained,
/// suppressed by category, or belongs to the linkage section.
pub open spec fn spec_item(d: DeclV, o: BindgenOptions, ds: Seq<DeclV>) -> Option<RDeclV> {
    if !d.retained {
        None
    } else {
        match d.global {
            GlobalV::GType(t) => if o.types {
                Some(RDeclV::TypeAlias { name: t.name, ty: spec_rtype(t.ty, ds) })
            } else {
                None
            },
            GlobalV::GComp(c) => if o.types {
                Some(
                    RDeclV::Composite {
                        name: c.name,
                        is_union: c.is_union,
                        derive_debug: o.derive_debug,
                        fields: spec_rfields(c.fields, c.fields.len() as int, ds),
                    },
                )
            } else {
                None
            },
            GlobalV::GEnum(e) => if o.enums {
                if o.rust_enums {
                    Some(RDeclV::Enum { name: e.name, repr: e.kind, variants: e.variants })
                } else {
                    Some(RDeclV::Constants { alias: e.name, repr: e.kind, consts: e.variants })
                }
            } else {
                None
            },
            GlobalV::GFunc(_) => None,
            GlobalV::GVar(_) => None,
        }
    }
}

/// Type-like declarations emitted for the first `n` graph nodes.
pub open spec fn spec_type_items(ds: Seq<DeclV>, o: BindgenOptions, n: int) -> Seq<RDeclV>
    decreases n,
{
    if n <= 0 {
        Seq::empty()
    } else {
        let pre = spec_type_items(ds, o, n - 1);
        match spec_item(ds[n - 1], o, ds) {
            Some(r) => pre.push(r),
            None => pre,
        }
    }
}

/// Externally-linked functions of the first `n` graph nodes, with the
/// configured symbol prefix applied.
pub open spec fn spec_efuncs(ds: Seq<DeclV>, o: BindgenOptions, n: int) -> Seq<RFuncV>
    decreases n,
{
    if n <= 0 {
        Seq::empty()
    } else {
        let pre = spec_efuncs(ds, o, n - 1);
        match ds[n - 1].global {
            GlobalV::GFunc(f) => if ds[n - 1].retained && o.functions {
                pre.push(RFuncV { name: o.link_prefix@ + f.name, sig: spec_rsig(f.sig, ds) })
            } else {
                pre
            },
            _ => pre,
        }
    }
}

/// Externally-linked globals of the first `n` graph nodes, with the
/// configured symbol prefix applied.
pub open spec fn spec_estatics(ds: Seq<DeclV>, o: BindgenOptions, n: int) -> Seq<RStaticV>
    decreases n,
{
    if n <= 0 {
        Seq::empty()
    } else {
        let pre = spec_estatics(ds, o, n - 1);
        match ds[n - 1].global {
            GlobalV::GVar(v) => if ds[n - 1].retained && o.globals {
                pre.push(
                    RStaticV {
                        name: o.link_prefix@ + v.name,
                        ty: spec_rtype(v.ty, ds),
                        is_mutable: v.is_mutable,
                    },
                )
            } else {
                pre
            },
            _ => pre,
        }
    }
}

/// One linkage grouping per configured link target, each carrying the
/// whole external symbol set; with no target, a single unannotated
/// grouping; with no symbols, nothing.
pub open spec fn spec_extern_blocks(ds: Seq<DeclV>, o: BindgenOptions) -> Seq<RDeclV> {
    let fns = spec_efuncs(ds, o, ds.len() as int);
    let statics = spec_estatics(ds, o, ds.len() as int);
    if fns.len() + statics.len() == 0 {
        Seq::empty()
    } else if o.links@.len() == 0 {
        seq![RDeclV::ExternBlock { link: None, fns, statics }]
    } else {
        Seq::new(
            o.links@.len(),
            |k: int|
                RDeclV::ExternBlock {
                    link: Some((o.links@[k].0@, o.links@[k].1)),
                    fns,
                    statics,
                },
        )
    }
}

/// The emitted name of a graph node.
pub open spec fn decl_name(d: DeclV) -> Seq<char> {
    global_name(d.global)
}

/// The first name shared by two retained declarations among the first
/// `n` graph nodes, if any.
pub open spec fn spec_collision(ds: Seq<DeclV>, n: int) -> Option<Seq<char>>
    decreases n,
{
    if n <= 0 {
        None
    } else {
        match spec_collision(ds, n - 1) {
            Some(x) => Some(x),
            None => if ds[n - 1].retained && exists|k: int|
                0 <= k < n - 1 && (#[trigger] ds[k]).retained && decl_name(ds[k]) == decl_name(
                    ds[n - 1],
                ) {
                Some(decl_name(ds[n - 1]))
            } else {
                None
            },
        }
    }
}

/// The generator's result: the emitted declarations in graph order
/// followed by the linkage groupings, or the first name collision.
pub open spec fn spec_gen(ds: Seq<DeclV>, o: BindgenOptions) -> Result<Seq<RDeclV>, GenErrorV> {
    match spec_collision(ds, ds.len() as int) {
        Some(name) => Err(GenErrorV::NameCollision { name }),
        None => Ok(spec_type_items(ds, o, ds.len() as int) + spec_extern_blocks(ds, o)),
    }
}

/// The fixed module-attribute preamble of every generated module.
pub open spec fn spec_preamble() -> Seq<Seq<char>> {
    seq![
        "allow(non_camel_case_types)"@,
        "allow(non_snake_case)"@,
        "allow(non_upper_case_globals)"@,
    ]
}

/// The declared name of a graph node, for emission and lookup.
fn global_name_x(g: &Global) -> (r: String)
    ensures
        r@ == global_name(global_view(*g)),
{
    match g {
        Global::GType(t) => t.name.clone(),
        Global::GComp(c) => c.name.clone(),
        Global::GEnum(e) => e.name.clone(),
        Global::GFunc(f) => f.name.clone(),
        Global::GVar(v) => v.name.clone(),
    }
}

/// Maps one resolved type reference to a target-language type, looking
/// named references up in the graph at read time.
fn rtype(t: &TypeRef, decls: &Vec<Decl>) -> (r: RType)
    ensures
        rty_view(r) == spec_rtype(ty_view(*t), decls_view(decls@)),
    decreases *t, 0int,
{
    match t {
        TypeRef::Void => RType::Void,
        TypeRef::Bool => RType::Bool,
        TypeRef::Int(k) => RType::Int(*k),
        TypeRef::Float(k) => RType::Float(*k),
        TypeRef::Ptr(inner) => match &**inner {
            TypeRef::Func(s) => RType::NullableFn(Box::new(rsig(&**s, decls))),
            _ => {
                proof {
                    assert(!(ty_view(**inner) is Func));
                }
                RType::Ptr(Box::new(rtype(&**inner, decls)))
            },
        },
        TypeRef::Array(el, len) => RType::Array(Box::new(rtype(&**el, decls)), *len),
        TypeRef::Func(s) => RType::BareFn(Box::new(rsig(&**s, decls))),
        TypeRef::Named(i) => {
            if *i < decls.len() {
                proof {
                    assert(decls_view(decls@)[*i as int] == crate::types::decl_view(
                        decls@[*i as int],
                    ));
                }
                RType::Named(global_name_x(&decls[*i].global))
            } else {
                RType::Named(String::new())
            }
        },
    }
}

/// Maps a resolved signature to a target-language signature.
fn rsig(s: &Sig, decls: &Vec<Decl>) -> (r: RSig)
    ensures
        rsig_view(r) == spec_rsig(sig_view(*s), decls_view(decls@)),
    decreases *s, 1int,
{
    let ghost dsv = decls_view(decls@);
    let ghost psv = params_view(s.params@);
    proof {
        lemma_params_view(s.params@);
    }
    let mut pars: Vec<RParam> = Vec::new();
    let mut i: usize = 0;
    while i < s.params.len()
        invariant
            0 <= i <= s.params@.len(),
            dsv == decls_view(decls@),
            psv == params_view(s.params@),
            psv.len() == s.params@.len(),
            forall|k: int|
                0 <= k < s.params@.len() ==> #[trigger] psv[k] == (
                    s.params@[k].name@,
                    ty_view(s.params@[k].ty),
                ),
            rparams_view(pars@) == spec_rparams(psv, i as int, dsv),
        decreases s.params@.len() - i,
    {
        let p = &s.params[i];
        let ty = rtype(&p.ty, decls);
        let ghost old_pars = pars@;
        pars.push(RParam { name: p.name.clone(), ty });
        proof {
            lemma_rparams_view(old_pars);
            lemma_rparams_view(pars@);
            assert(rparams_view(pars@) =~= rparams_view(old_pars).push(
                (p.name@, rty_view(ty)),
            ));
        }
        i = i + 1;
    }
    let ret = rtype(&s.ret, decls);
    RSig { params: pars, ret, variadic: s.variadic }
}

/// Maps the resolved fields of a composite.
fn rfields(fs: &Vec<crate::types::Field>, decls: &Vec<Decl>) -> (r: Vec<RField>)
    ensures
        rfields_view(r@) == spec_rfields(
            crate::types::comp_fields_view(fs@),
            fs@.len() as int,
            decls_view(decls@),
        ),
{
    let ghost dsv = decls_view(decls@);
    let ghost fsv = crate::types::comp_fields_view(fs@);
    let mut out: Vec<RField> = Vec::new();
    proof {
        assert(rfields_view(out@) =~= Seq::<RFieldV>::empty());
    }
    let mut i: usize = 0;
    while i < fs.len()
        invariant
            0 <= i <= fs@.len(),
            dsv == decls_view(decls@),
            fsv == crate::types::comp_fields_view(fs@),
            fsv.len() == fs@.len(),
            rfields_view(out@) == spec_rfields(fsv, i as int, dsv),
        decreases fs@.len() - i,
    {
        let f = &fs[i];
        let ty = rtype(&f.ty, decls);
        let ghost old_out = out@;
        out.push(RField { name: f.name.clone(), ty, bits: f.bits });
        proof {
            assert(fsv[i as int] == crate::types::field_view(fs@[i as int]));
            assert(rfields_view(out@) =~= rfields_view(old_out).push(
                RFieldV { name: f.name@, ty: rty_view(ty), bits: f.bits },
            ));
        }
        i = i + 1;
    }
    out
}

proof fn lemma_collision_some(ds: Seq<DeclV>, n: int, m: int)
    requires
        0 <= n <= m,
        spec_collision(ds, n) is Some,
    ensures
        spec_collision(ds, m) == spec_collision(ds, n),
    decreases m - n,
{
    if m > n {
        lemma_collision_some(ds, n, m - 1);
    }
}

/// First name shared by two retained declarations, if any.
fn find_collision(decls: &Vec<Decl>) -> (r: Option<String>)
    ensures
        match r {
            Some(name) => spec_collision(decls_view(decls@), decls@.len() as int) == Some(name@),
            None => spec_collision(decls_view(decls@), decls@.len() as int) is None,
        },
{
    let ghost dsv = decls_view(decls@);
    let mut i: usize = 0;
    while i < decls.len()
        invariant
            0 <= i <= decls@.len(),
            dsv == decls_view(decls@),
            dsv.len() == decls@.len(),
            spec_collision(dsv, i as int) is None,
        decreases decls@.len() - i,
    {
        if decls[i].retained {
            proof {
                assert(dsv[i as int] == crate::types::decl_view(decls@[i as int]));
            }
            let name_i = global_name_x(&decls[i].global);
            let mut k: usize = 0;
            while k < i
                invariant
                    0 <= k <= i < decls@.len(),
                    dsv == decls_view(decls@),
                    dsv.len() == decls@.len(),
                    spec_collision(dsv, i as int) is None,
                    name_i@ == decl_name(dsv[i as int]),
                    dsv[i as int].retained,
                    forall|p: int|
                        0 <= p < k ==> !((#[trigger] dsv[p]).retained && decl_name(dsv[p])
                            == decl_name(dsv[i as int])),
                decreases i - k,
            {
                if decls[k].retained {
                    let name_k = global_name_x(&decls[k].global);
                    if strutil::string_eq(&name_k, &name_i) {
                        proof {
                            assert(dsv[k as int].retained && decl_name(dsv[k as int]) == decl_name(
                                dsv[i as int],
                            ));
                            assert(exists|p: int|
                                0 <= p < i && (#[trigger] dsv[p]).retained && decl_name(dsv[p])
                                    == decl_name(dsv[i as int]));
                            assert(spec_collision(dsv, i + 1) == Some(decl_name(dsv[i as int])));
                            lemma_collision_some(dsv, i + 1, dsv.len() as int);
                        }
                        return Some(name_i);
                    }
                }
                k = k + 1;
            }
        }
        i = i + 1;
    }
    None
}

/// Externally-linked functions of the graph, prefix applied.
fn efuncs(decls: &Vec<Decl>, options: &BindgenOptions) -> (r: Vec<RFunc>)
    ensures
        rfuncs_view(r@) == spec_efuncs(
            decls_view(decls@),
            *options,
            decls@.len() as int,
        ),
{
    let ghost dsv = decls_view(decls@);
    let mut out: Vec<RFunc> = Vec::new();
    proof {
        assert(rfuncs_view(out@) =~= Seq::<RFuncV>::empty());
    }
    let mut i: usize = 0;
    while i < decls.len()
        invariant
            0 <= i <= decls@.len(),
            dsv == decls_view(decls@),
            dsv.len() == decls@.len(),
            rfuncs_view(out@) == spec_efuncs(dsv, *options, i as int),
        decreases decls@.len() - i,
    {
        let d = &decls[i];
        match &d.global {
            Global::GFunc(f) => {
                if d.retained && options.functions {
                    let name = options.link_prefix.clone().concat(f.name.as_str());
                    let sig = rsig(&f.sig, decls);
                    let ghost old_out = out@;
                    out.push(RFunc { name, sig });
                    proof {
                        assert(rfuncs_view(out@) =~= rfuncs_view(old_out).push(
                            rfunc_view(out@[out@.len() - 1]),
                        ));
                    }
                }
            },
            _ => {},
        }
        i = i + 1;
    }
    out
}

/// Externally-linked globals of the graph, prefix applied.
fn estatics(decls: &Vec<Decl>, options: &BindgenOptions) -> (r: Vec<RStatic>)
    ensures
        rstatics_view(r@) == spec_estatics(
            decls_view(decls@),
            *options,
            decls@.len() as int,
        ),
{
    let ghost dsv = decls_view(decls@);
    let mut out: Vec<RStatic> = Vec::new();
    proof {
        assert(rstatics_view(out@) =~= Seq::<RStaticV>::empty());
    }
    let mut i: usize = 0;
    while i < decls.len()
        invariant
            0 <= i <= decls@.len(),
            dsv == decls_view(decls@),
            dsv.len() == decls@.len(),
            rstatics_view(out@) == spec_estatics(dsv, *options, i as int),
        decreases decls@.len() - i,
    {
        let d = &decls[i];
        match &d.global {
            Global::GVar(v) => {
                if d.retained && options.globals {
                    let name = options.link_prefix.clone().concat(v.name.as_str());
                    let ty = rtype(&v.ty, decls);
                    let ghost old_out = out@;
                    out.push(RStatic { name, ty, is_mutable: v.is_mutable });
                    proof {
                        assert(rstatics_view(out@) =~= rstatics_view(old_out).push(
                            rstatic_view(out@[out@.len() - 1]),
                        ));
                    }
                }
            },
            _ => {},
        }
        i = i + 1;
    }
    out
}

/// The fixed module-attribute preamble.
fn preamble() -> (r: Vec<String>)
    ensures
        strings_view(r@) == spec_preamble(),
{
    let mut r: Vec<String> = Vec::new();
    r.push(String::from_str("allow(non_camel_case_types)"));
    r.push(String::from_str("allow(non_snake_case)"));
    r.push(String::from_str("allow(non_upper_case_globals)"));
    proof {
        assert(strings_view(r@) =~= spec_preamble());
    }
    r
}

/// The generator: maps the graph, in first-encountered order, to the
/// emitted declarations plus the module-attribute preamble, or fails
/// on the first name collision between retained declarations.
pub fn gen_mod(options: &BindgenOptions, decls: &Vec<Decl>) -> (r: Result<
    (Vec<RDecl>, Vec<String>),
    GenError,
>)
    ensures
        match r {
            Ok(out) => spec_gen(decls_view(decls@), *options) == Ok::<Seq<RDeclV>, GenErrorV>(
                rdecls_view(out.0@),
            ) && strings_view(out.1@) == spec_preamble(),
            Err(e) => spec_gen(decls_view(decls@), *options) == Err::<Seq<RDeclV>, GenErrorV>(
                gen_error_view(e),
            ),
        },
{
    let ghost dsv = decls_view(decls@);
    if let Some(name) = find_collision(decls) {
        return Err(GenError::NameCollision { name });
    }
    let mut items: Vec<RDecl> = Vec::new();
    proof {
        assert(rdecls_view(items@) =~= Seq::<RDeclV>::empty());
    }
    let mut i: usize = 0;
    while i < decls.len()
        invariant
            0 <= i <= decls@.len(),
            dsv == decls_view(decls@),
            dsv.len() == decls@.len(),
            rdecls_view(items@) == spec_type_items(dsv, *options, i as int),
        decreases decls@.len() - i,
    {
        let d = &decls[i];
        let ghost old_items = items@;
        if d.retained {
            match &d.global {
                Global::GType(t) => {
                    if options.types {
                        let item = RDecl::TypeAlias {
                            name: t.name.clone(),
                            ty: rtype(&t.ty, decls),
                        };
                        items.push(item);
                        proof {
                            assert(rdecls_view(items@) =~= rdecls_view(old_items).push(
                                rdecl_view(items@[items@.len() - 1]),
                            ));
                        }
                    }
                },
                Global::GComp(c) => {
                    if options.types {
                        let fields = rfields(&c.fields, decls);
                        let item = RDecl::Composite {
                            name: c.name.clone(),
                            is_union: c.is_union,
                            derive_debug: options.derive_debug,
                            fields,
                        };
                        items.push(item);
                        proof {
                            assert(rdecls_view(items@) =~= rdecls_view(old_items).push(
                                rdecl_view(items@[items@.len() - 1]),
                            ));
                        }
                    }
                },
                Global::GEnum(e) => {
                    if options.enums {
                        let mut vars: Vec<EnumVariant> = Vec::new();
                        let mut k: usize = 0;
                        while k < e.variants.len()
                            invariant
                                0 <= k <= e.variants@.len(),
                                vars@.len() == k,
                                forall|p: int|
                                    0 <= p < k ==> (#[trigger] vars@[p]).name@
                                        == e.variants@[p].name@ && vars@[p].value
                                        == e.variants@[p].value,
                            decreases e.variants@.len() - k,
                        {
                            vars.push(
                                EnumVariant {
                                    name: e.variants[k].name.clone(),
                                    value: e.variants[k].value,
                                },
                            );
                            k = k + 1;
                        }
                        proof {
                            let lhs = variant_pairs_view(vars@);
                            let rhs = crate::types::enum_view(*e).variants;
                            assert forall|p: int| 0 <= p < lhs.len() implies lhs[p] == rhs[p] by {
                            }
                            assert(lhs =~= rhs);
                        }
                        let item = if options.rust_enums {
                            RDecl::Enum { name: e.name.clone(), repr: e.kind, variants: vars }
                        } else {
                            RDecl::Constants { alias: e.name.clone(), repr: e.kind, consts: vars }
                        };
                        items.push(item);
                        proof {
                            assert(rdecls_view(items@) =~= rdecls_view(old_items).push(
                                rdecl_view(items@[items@.len() - 1]),
                            ));
                        }
                    }
                },
                Global::GFunc(_) => {},
                Global::GVar(_) => {},
            }
        }
        i = i + 1;
    }
    let ghost type_items = spec_type_items(dsv, *options, dsv.len() as int);
    let ghost blocks = spec_extern_blocks(dsv, *options);
    let fns = efuncs(decls, options);
    let statics = estatics(decls, options);
    if fns.len() == 0 && statics.len() == 0 {
        proof {
            assert(rdecls_view(items@) =~= type_items + blocks);
        }
        return Ok((items, preamble()));
    }
    if options.links.len() == 0 {
        let block = RDecl::ExternBlock { link: None, fns, statics };
        items.push(block);
        proof {
            assert(rdecls_view(items@) =~= type_items + blocks);
        }
        return Ok((items, preamble()));
    }
    let mut k: usize = 0;
    while k < options.links.len()
        invariant
            0 <= k <= options.links@.len(),
            dsv == decls_view(decls@),
            type_items == spec_type_items(dsv, *options, dsv.len() as int),
            blocks == spec_extern_blocks(dsv, *options),
            blocks.len() == options.links@.len(),
            rdecls_view(items@) == type_items + blocks.subrange(0, k as int),
        decreases options.links@.len() - k,
    {
        let fns_k = efuncs(decls, options);
        let statics_k = estatics(decls, options);
        let lib = options.links[k].0.clone();
        let kind = options.links[k].1;
        let ghost old_items = items@;
        items.push(RDecl::ExternBlock { link: Some((lib, kind)), fns: fns_k, statics: statics_k });
        proof {
            assert(rdecl_view(items@[items@.len() - 1]) =~~= blocks[k as int]);
            assert(rdecls_view(items@) =~= rdecls_view(old_items).push(
                rdecl_view(items@[items@.len() - 1]),
            ));
            assert(blocks.subrange(0, k + 1) =~= blocks.subrange(0, k as int).push(
                blocks[k as int],
            ));
            assert(rdecls_view(items@) =~= type_items + blocks.subrange(0, k + 1));
        }
        k = k + 1;
    }
    proof {
        assert(blocks.subrange(0, options.links@.len() as int) =~= blocks);
        assert(rdecls_view(items@) =~= type_items + blocks);
    }
    Ok((items, preamble()))
}

} // verus!
