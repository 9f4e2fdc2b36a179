//! The library-wide laws: properties of the pipeline's specification
//! functions, each proved once and for all inputs.

use vstd::prelude::*;

use crate::cursor::Cursor;
use crate::gen::decl_name;
use crate::gen::spec_collision;
use crate::gen::spec_efuncs;
use crate::gen::spec_estatics;
use crate::gen::spec_extern_blocks;
use crate::gen::spec_gen;
use crate::gen::spec_item;
use crate::gen::spec_rfields;
use crate::gen::spec_type_items;
use crate::gen::RDeclV;
use crate::parser::id_in;
use crate::parser::id_index;
use crate::parser::spec_ids;
use crate::parser::spec_ids_pre;
use crate::parser::spec_parse_pre;
use crate::parser::spec_retained;
use crate::spec_builtin_names;
use crate::spec_generate;
use crate::spec_parse_of;
use crate::spec_str_to_ikind;
use crate::types::id_eq_v;
use crate::types::id_view;
use crate::types::DeclIdV;
use crate::types::DeclV;
use crate::types::FieldV;
use crate::types::GlobalV;
use crate::BindgenOptions;
use crate::BindgenErrorV;
use crate::BindingsV;

verus! {

broadcast use vstd::seq::group_seq_axioms, vstd::std_specs::vec::group_vec_axioms;

/// Determinism: the pipeline's outcome is a function of the cursors
/// and the configuration alone, so two runs on identical input headers
/// and configuration yield identical declaration ordering and naming.
pub proof fn lemma_pipeline_deterministic(
    cs: Seq<Cursor>,
    o: BindgenOptions,
    r1: Result<BindingsV, BindgenErrorV>,
    r2: Result<BindingsV, BindgenErrorV>,
)
    requires
        r1 == spec_generate(cs, o),
        r2 == spec_generate(cs, o),
    ensures
        r1 == r2,
{
}

/// The (name, value) pairs carried by an emitted enum declaration,
/// in either representation.
pub open spec fn enum_pairs(d: RDeclV) -> Seq<(Seq<char>, i64)> {
    match d {
        RDeclV::Enum { variants, .. } => variants,
        RDeclV::Constants { consts, .. } => consts,
        _ => Seq::empty(),
    }
}

/// Round-trip enum fidelity: the declaration emitted for a retained
/// enum — native or constants, per configuration — carries exactly the
/// declared (name, value) pairs, duplicates and non-monotonic values
/// included.
pub proof fn lemma_enum_round_trip(d: DeclV, o: BindgenOptions, ds: Seq<DeclV>)
    requires
        d.retained,
        o.enums,
        d.global is GEnum,
    ensures
        spec_item(d, o, ds) is Some,
        enum_pairs(spec_item(d, o, ds)->Some_0) == d.global->GEnum_0.variants,
{
}

/// Every graph node that the policy emits has its declaration in the
/// generated output.
pub proof fn lemma_item_emitted(ds: Seq<DeclV>, o: BindgenOptions, j: int)
    requires
        0 <= j < ds.len(),
        spec_item(ds[j], o, ds) is Some,
        spec_gen(ds, o) is Ok,
    ensures
        exists|i: int|
            0 <= i < spec_gen(ds, o)->Ok_0.len() && spec_gen(ds, o)->Ok_0[i] == spec_item(
                ds[j],
                o,
                ds,
            )->Some_0,
{
    lemma_type_items_contain(ds, o, ds.len() as int, j);
    let items = spec_type_items(ds, o, ds.len() as int);
    let i = choose|i: int| 0 <= i < items.len() && items[i] == spec_item(ds[j], o, ds)->Some_0;
    assert(spec_gen(ds, o)->Ok_0[i] == items[i]);
}

proof fn lemma_type_items_contain(ds: Seq<DeclV>, o: BindgenOptions, n: int, j: int)
    requires
        0 <= j < n,
        spec_item(ds[j], o, ds) is Some,
    ensures
        exists|i: int|
            0 <= i < spec_type_items(ds, o, n).len() && spec_type_items(ds, o, n)[i] == spec_item(
                ds[j],
                o,
                ds,
            )->Some_0,
    decreases n,
{
    let pre = spec_type_items(ds, o, n - 1);
    if j == n - 1 {
        assert(spec_type_items(ds, o, n)[pre.len() as int] == spec_item(ds[j], o, ds)->Some_0);
    } else {
        lemma_type_items_contain(ds, o, n - 1, j);
        let i = choose|i: int| 0 <= i < pre.len() && pre[i] == spec_item(ds[j], o, ds)->Some_0;
        assert(spec_type_items(ds, o, n)[i] == pre[i]);
    }
}

/// Pointwise description of the emitted fields of a composite.
pub proof fn lemma_spec_rfields(fs: Seq<FieldV>, n: int, ds: Seq<DeclV>)
    requires
        0 <= n <= fs.len(),
    ensures
        spec_rfields(fs, n, ds).len() == n,
        forall|i: int|
            0 <= i < n ==> (#[trigger] spec_rfields(fs, n, ds)[i]).name == fs[i].name
                && spec_rfields(fs, n, ds)[i].bits == fs[i].bits,
    decreases n,
{
    if n > 0 {
        lemma_spec_rfields(fs, n - 1, ds);
        assert forall|i: int| 0 <= i < n implies (#[trigger] spec_rfields(fs, n, ds)[i]).name
            == fs[i].name && spec_rfields(fs, n, ds)[i].bits == fs[i].bits by {
            if i < n - 1 {
                assert(spec_rfields(fs, n, ds)[i] == spec_rfields(fs, n - 1, ds)[i]);
            }
        }
    }
}

proof fn lemma_collision_iff(ds: Seq<DeclV>, n: int)
    requires
        0 <= n <= ds.len(),
    ensures
        (spec_collision(ds, n) is Some) <==> exists|i: int, j: int|
            0 <= i < j < n && (#[trigger] ds[i]).retained && (#[trigger] ds[j]).retained
                && decl_name(ds[i]) == decl_name(ds[j]),
    decreases n,
{
    if n > 0 {
        lemma_collision_iff(ds, n - 1);
        if spec_collision(ds, n) is Some {
            if spec_collision(ds, n - 1) is Some {
                let (i, j) = choose|i: int, j: int|
                    0 <= i < j < n - 1 && (#[trigger] ds[i]).retained && (#[trigger] ds[j]).retained
                        && decl_name(ds[i]) == decl_name(ds[j]);
                assert(0 <= i < j < n && ds[i].retained && ds[j].retained && decl_name(ds[i])
                    == decl_name(ds[j]));
            } else {
                let k = choose|k: int|
                    0 <= k < n - 1 && (#[trigger] ds[k]).retained && decl_name(ds[k]) == decl_name(
                        ds[n - 1],
                    );
                assert(0 <= k < n - 1 < n && ds[k].retained && ds[n - 1].retained && decl_name(
                    ds[k],
                ) == decl_name(ds[n - 1]));
            }
        }
        if exists|i: int, j: int|
            0 <= i < j < n && (#[trigger] ds[i]).retained && (#[trigger] ds[j]).retained
                && decl_name(ds[i]) == decl_name(ds[j]) {
            let (i, j) = choose|i: int, j: int|
                0 <= i < j < n && (#[trigger] ds[i]).retained && (#[trigger] ds[j]).retained
                    && decl_name(ds[i]) == decl_name(ds[j]);
            if j < n - 1 {
                assert(spec_collision(ds, n - 1) is Some);
            } else if spec_collision(ds, n - 1) is None {
                assert(0 <= i < n - 1 && ds[i].retained && decl_name(ds[i]) == decl_name(
                    ds[n - 1],
                ));
                assert(spec_collision(ds, n) is Some);
            }
        }
    }
}

/// A name collision is the one generation failure, and it occurs if
/// and only if two retained declarations resolve to the same emitted
/// name; otherwise generation succeeds.
pub proof fn lemma_generation_fails_iff_collision(ds: Seq<DeclV>, o: BindgenOptions)
    ensures
        (spec_gen(ds, o) is Err) <==> exists|i: int, j: int|
            0 <= i < j < ds.len() && (#[trigger] ds[i]).retained && (#[trigger] ds[j]).retained
                && decl_name(ds[i]) == decl_name(ds[j]),
{
    lemma_collision_iff(ds, ds.len() as int);
}

/// Bits occupied by the bitfields of a width list; fields without a
/// width contribute their type's own storage, which the widths pin
/// pointwise as well.
pub open spec fn bitfield_storage(ws: Seq<Option<u32>>) -> int
    decreases ws.len(),
{
    if ws.len() == 0 {
        0
    } else {
        (match ws[0] {
            Some(w) => w as int,
            None => 0,
        }) + bitfield_storage(ws.drop_first())
    }
}

/// Layout fidelity: the composite emitted for a retained struct or
/// union carries the declared fields in declaration order, each under
/// its name and with its exact bit width, so the emitted storage
/// layout — the total bitfield storage included — is the source
/// layout.
pub proof fn lemma_layout_fidelity(d: DeclV, o: BindgenOptions, ds: Seq<DeclV>)
    requires
        d.retained,
        o.types,
        d.global is GComp,
    ensures
        spec_item(d, o, ds) is Some,
        spec_item(d, o, ds)->Some_0 is Composite,
        spec_item(d, o, ds)->Some_0->Composite_fields.len() == d.global->GComp_0.fields.len(),
        forall|i: int|
            0 <= i < d.global->GComp_0.fields.len()
                ==> (#[trigger] spec_item(d, o, ds)->Some_0->Composite_fields[i]).name
                == d.global->GComp_0.fields[i].name
                && spec_item(d, o, ds)->Some_0->Composite_fields[i].bits
                == d.global->GComp_0.fields[i].bits,
        bitfield_storage(
            spec_item(d, o, ds)->Some_0->Composite_fields.map(
                |i: int, f: crate::gen::RFieldV| f.bits,
            ),
        ) == bitfield_storage(d.global->GComp_0.fields.map(|i: int, f: FieldV| f.bits)),
{
    let c = d.global->GComp_0;
    lemma_spec_rfields(c.fields, c.fields.len() as int, ds);
    let emitted = spec_item(d, o, ds)->Some_0->Composite_fields;
    assert(emitted.map(|i: int, f: crate::gen::RFieldV| f.bits) =~= c.fields.map(
        |i: int, f: FieldV| f.bits,
    ));
}

/// The collapsed identity list never holds two equal identities.
pub proof fn lemma_ids_unique(cs: Seq<Cursor>, n: int)
    ensures
        forall|i: int, j: int|
            0 <= i < j < spec_ids_pre(cs, n).len() ==> !id_eq_v(
                #[trigger] spec_ids_pre(cs, n)[i],
                #[trigger] spec_ids_pre(cs, n)[j],
            ),
    decreases n,
{
    if n > 0 {
        lemma_ids_unique(cs, n - 1);
        let pre = spec_ids_pre(cs, n - 1);
        let idv = id_view(cs[n - 1].id);
        if !id_in(pre, idv) {
            assert forall|i: int, j: int|
                0 <= i < j < spec_ids_pre(cs, n).len() implies !id_eq_v(
                #[trigger] spec_ids_pre(cs, n)[i],
                #[trigger] spec_ids_pre(cs, n)[j],
            ) by {
                if j == pre.len() {
                    assert(spec_ids_pre(cs, n)[i] == pre[i]);
                    assert(!id_eq_v(pre[i], idv));
                } else {
                    assert(spec_ids_pre(cs, n)[i] == pre[i]);
                    assert(spec_ids_pre(cs, n)[j] == pre[j]);
                }
            }
        }
    }
}

proof fn lemma_id_index_found(ids: Seq<DeclIdV>, id: DeclIdV, i: int, j: int)
    requires
        id_index(ids, id, i) == Some(j),
    ensures
        i <= j < ids.len(),
        id_eq_v(ids[j], id),
    decreases ids.len() - i,
{
    if !(i < 0 || i >= ids.len()) && !id_eq_v(ids[i], id) {
        lemma_id_index_found(ids, id, i + 1, j);
    }
}

proof fn lemma_parse_ids(
    cs: Seq<Cursor>,
    n: int,
    ids: Seq<DeclIdV>,
    pats: Seq<Seq<char>>,
    builtin_names: Seq<Seq<char>>,
    builtins: bool,
    relaxed: bool,
    override_enum_ty: Option<crate::types::IKind>,
)
    requires
        spec_parse_pre(cs, n, ids, pats, builtin_names, builtins, relaxed, override_enum_ty)
            is Ok,
    ensures
        ({
            let ds = spec_parse_pre(cs, n, ids, pats, builtin_names, builtins, relaxed,
                override_enum_ty)->Ok_0;
            &&& ds.len() <= ids.len()
            &&& forall|k: int| 0 <= k < ds.len() ==> id_eq_v((#[trigger] ds[k]).id, ids[k])
        }),
    decreases n,
{
    if n > 0 {
        let pre = spec_parse_pre(cs, n - 1, ids, pats, builtin_names, builtins, relaxed,
            override_enum_ty);
        lemma_parse_ids(cs, n - 1, ids, pats, builtin_names, builtins, relaxed, override_enum_ty);
        let c = cs[n - 1];
        if id_index(ids, id_view(c.id), 0) == Some(pre->Ok_0.len() as int) {
            lemma_id_index_found(ids, id_view(c.id), 0, pre->Ok_0.len() as int);
        }
    }
}

/// Cycle round-trip without duplication: a successful resolution —
/// self- and mutually referential composites included, since named
/// references are indices, never expansions — yields a graph in which
/// no identity occurs twice, so no declaration is duplicated.
pub proof fn lemma_no_duplication(cs: Seq<Cursor>, o: BindgenOptions)
    requires
        spec_parse_of(cs, o) is Ok,
    ensures
        forall|i: int, j: int|
            0 <= i < j < spec_parse_of(cs, o)->Ok_0.len() ==> !id_eq_v(
                (#[trigger] spec_parse_of(cs, o)->Ok_0[i]).id,
                (#[trigger] spec_parse_of(cs, o)->Ok_0[j]).id,
            ),
{
    let ids = spec_ids(cs);
    lemma_ids_unique(cs, cs.len() as int);
    lemma_parse_ids(
        cs,
        cs.len() as int,
        ids,
        crate::parser::strings_view(o.match_pat@),
        spec_builtin_names(),
        o.builtins,
        !o.fail_on_unknown_type,
        spec_str_to_ikind(o.override_enum_ty@),
    );
}

/// Filter correctness, resolver side: every declaration the graph
/// marks as retained has an origin file that passes the configured
/// match patterns (and every suppressed builtin stays unretained).
pub proof fn lemma_retained_passes_filter(cs: Seq<Cursor>, o: BindgenOptions)
    requires
        spec_parse_of(cs, o) is Ok,
    ensures
        forall|k: int|
            0 <= k < spec_parse_of(cs, o)->Ok_0.len() && (#[trigger] spec_parse_of(
                cs,
                o,
            )->Ok_0[k]).retained ==> spec_retained(
                spec_parse_of(cs, o)->Ok_0[k].id.file,
                crate::parser::strings_view(o.match_pat@),
            ),
{
    lemma_parse_retained(
        cs,
        cs.len() as int,
        spec_ids(cs),
        crate::parser::strings_view(o.match_pat@),
        spec_builtin_names(),
        o.builtins,
        !o.fail_on_unknown_type,
        spec_str_to_ikind(o.override_enum_ty@),
    );
}

proof fn lemma_parse_retained(
    cs: Seq<Cursor>,
    n: int,
    ids: Seq<DeclIdV>,
    pats: Seq<Seq<char>>,
    builtin_names: Seq<Seq<char>>,
    builtins: bool,
    relaxed: bool,
    override_enum_ty: Option<crate::types::IKind>,
)
    requires
        spec_parse_pre(cs, n, ids, pats, builtin_names, builtins, relaxed, override_enum_ty)
            is Ok,
    ensures
        ({
            let ds = spec_parse_pre(cs, n, ids, pats, builtin_names, builtins, relaxed,
                override_enum_ty)->Ok_0;
            forall|k: int|
                0 <= k < ds.len() && (#[trigger] ds[k]).retained ==> spec_retained(
                    ds[k].id.file,
                    pats,
                )
        }),
    decreases n,
{
    if n > 0 {
        lemma_parse_retained(cs, n - 1, ids, pats, builtin_names, builtins, relaxed,
            override_enum_ty);
    }
}

/// Filter correctness, generator side: every emitted type declaration
/// stems from a retained graph node.
pub proof fn lemma_items_from_retained(ds: Seq<DeclV>, o: BindgenOptions, n: int)
    requires
        0 <= n <= ds.len(),
    ensures
        forall|i: int|
            #![trigger spec_type_items(ds, o, n)[i]]
            0 <= i < spec_type_items(ds, o, n).len() ==> exists|j: int|
                0 <= j < n && (#[trigger] spec_item(ds[j], o, ds)) == Some(
                    spec_type_items(ds, o, n)[i],
                ) && ds[j].retained,
    decreases n,
{
    if n > 0 {
        lemma_items_from_retained(ds, o, n - 1);
        let pre = spec_type_items(ds, o, n - 1);
        assert forall|i: int|
            #![trigger spec_type_items(ds, o, n)[i]]
            0 <= i < spec_type_items(ds, o, n).len() implies exists|j: int|
            0 <= j < n && (#[trigger] spec_item(ds[j], o, ds)) == Some(
                spec_type_items(ds, o, n)[i],
            ) && ds[j].retained by {
            if i < pre.len() {
                assert(spec_type_items(ds, o, n)[i] == pre[i]);
                let j = choose|j: int|
                    0 <= j < n - 1 && (#[trigger] spec_item(ds[j], o, ds)) == Some(pre[i])
                        && ds[j].retained;
                assert(0 <= j < n && spec_item(ds[j], o, ds) == Some(
                    spec_type_items(ds, o, n)[i],
                ) && ds[j].retained);
            } else {
                assert(spec_item(ds[n - 1], o, ds) is Some);
                assert(ds[n - 1].retained);
                assert(spec_type_items(ds, o, n)[i] == spec_item(ds[n - 1], o, ds)->Some_0);
                assert(spec_item(ds[n - 1], o, ds) == Some(spec_type_items(ds, o, n)[i]));
            }
        }
    } else {
        assert(spec_type_items(ds, o, n).len() == 0);
    }
}

/// Linkage grouping: with at least one configured link target and a
/// non-empty external symbol set, the output carries one grouping per
/// target, in configuration order, each annotated with its library
/// name and kind and each carrying the same symbol set.
pub proof fn lemma_linkage_grouping(ds: Seq<DeclV>, o: BindgenOptions)
    requires
        o.links@.len() > 0,
        spec_efuncs(ds, o, ds.len() as int).len() + spec_estatics(ds, o, ds.len() as int).len()
            > 0,
    ensures
        spec_extern_blocks(ds, o).len() == o.links@.len(),
        forall|k: int|
            0 <= k < o.links@.len() ==> #[trigger] spec_extern_blocks(ds, o)[k]
                == (RDeclV::ExternBlock {
                link: Some((o.links@[k].0@, o.links@[k].1)),
                fns: spec_efuncs(ds, o, ds.len() as int),
                statics: spec_estatics(ds, o, ds.len() as int),
            }),
{
}

/// Every external symbol name in the output begins with the configured
/// symbol prefix.
pub proof fn lemma_prefix_applied(ds: Seq<DeclV>, o: BindgenOptions, n: int)
    requires
        0 <= n <= ds.len(),
    ensures
        forall|i: int|
            0 <= i < spec_efuncs(ds, o, n).len() ==> (#[trigger] spec_efuncs(ds, o, n)[i]).name
                .subrange(0, o.link_prefix@.len() as int) == o.link_prefix@,
        forall|i: int|
            0 <= i < spec_estatics(ds, o, n).len() ==> (#[trigger] spec_estatics(ds, o, n)[i]).name
                .subrange(0, o.link_prefix@.len() as int) == o.link_prefix@,
    decreases n,
{
    if n > 0 {
        lemma_prefix_applied(ds, o, n - 1);
        let p = o.link_prefix@;
        match ds[n - 1].global {
            GlobalV::GFunc(f) => {
                assert((p + f.name).subrange(0, p.len() as int) =~= p);
            },
            GlobalV::GVar(v) => {
                assert((p + v.name).subrange(0, p.len() as int) =~= p);
            },
            _ => {},
        }
    }
}

proof fn lemma_resolve_ty_relaxed(t: crate::cursor::CType, ids: Seq<DeclIdV>)
    ensures
        !(crate::parser::spec_resolve_ty(t, ids, true) matches Err(
            crate::parser::TyErrV::Unknown,
        )),
    decreases t, 0int,
{
    match t {
        crate::cursor::CType::Ptr(inner) => lemma_resolve_ty_relaxed(*inner, ids),
        crate::cursor::CType::Array(el, _) => lemma_resolve_ty_relaxed(*el, ids),
        crate::cursor::CType::Func(sig) => lemma_resolve_sig_relaxed(*sig, ids),
        _ => {},
    }
}

proof fn lemma_resolve_params_relaxed(ps: Seq<crate::cursor::CParam>, n: int, ids: Seq<DeclIdV>)
    ensures
        !(crate::parser::spec_resolve_params(ps, n, ids, true) matches Err(
            crate::parser::TyErrV::Unknown,
        )),
    decreases ps, n,
{
    if !(n <= 0 || n > ps.len()) {
        lemma_resolve_params_relaxed(ps, n - 1, ids);
        lemma_resolve_ty_relaxed(ps[n - 1].ty, ids);
    }
}

proof fn lemma_resolve_sig_relaxed(s: crate::cursor::CSig, ids: Seq<DeclIdV>)
    ensures
        !(crate::parser::spec_resolve_sig(s, ids, true) matches Err(
            crate::parser::TyErrV::Unknown,
        )),
    decreases s, 1int,
{
    lemma_resolve_params_relaxed(s.params@, s.params@.len() as int, ids);
    lemma_resolve_ty_relaxed(s.ret, ids);
}

proof fn lemma_resolve_fields_relaxed(fs: Seq<crate::cursor::CField>, n: int, ids: Seq<DeclIdV>)
    ensures
        !(crate::parser::spec_resolve_fields(fs, n, ids, true) matches Err(
            crate::parser::TyErrV::Unknown,
        )),
    decreases n,
{
    if n > 0 {
        lemma_resolve_fields_relaxed(fs, n - 1, ids);
        lemma_resolve_ty_relaxed(fs[n - 1].ty, ids);
    }
}

proof fn lemma_global_relaxed(
    c: Cursor,
    j: int,
    ids: Seq<DeclIdV>,
    override_enum_ty: Option<crate::types::IKind>,
)
    ensures
        !(crate::parser::spec_global(c, j, ids, true, override_enum_ty) matches Err(
            crate::parser::TyErrV::Unknown,
        )),
{
    lemma_resolve_fields_relaxed(c.fields@, c.fields@.len() as int, ids);
    lemma_resolve_ty_relaxed(c.ty, ids);
}

proof fn lemma_parse_pre_relaxed(
    cs: Seq<Cursor>,
    n: int,
    ids: Seq<DeclIdV>,
    pats: Seq<Seq<char>>,
    builtin_names: Seq<Seq<char>>,
    builtins: bool,
    override_enum_ty: Option<crate::types::IKind>,
)
    ensures
        !(spec_parse_pre(cs, n, ids, pats, builtin_names, builtins, true, override_enum_ty)
            matches Err(crate::parser::ResolveErrorV::UnknownType { .. })),
    decreases n,
{
    if n > 0 {
        lemma_parse_pre_relaxed(cs, n - 1, ids, pats, builtin_names, builtins, override_enum_ty);
        let pre = spec_parse_pre(cs, n - 1, ids, pats, builtin_names, builtins, true,
            override_enum_ty);
        if pre is Ok {
            lemma_global_relaxed(cs[n - 1], pre->Ok_0.len() as int, ids, override_enum_ty);
        }
    }
}

/// Unknown-type policy, run level: under the relaxed policy every
/// unclassifiable type is substituted, so a run never fails with an
/// unknown-type failure — the one resolution failure left is a
/// dangling named reference.
pub proof fn lemma_relaxed_run_never_unknown(cs: Seq<Cursor>, o: BindgenOptions)
    requires
        !o.fail_on_unknown_type,
    ensures
        !(spec_parse_of(cs, o) matches Err(crate::parser::ResolveErrorV::UnknownType { .. })),
{
    lemma_parse_pre_relaxed(
        cs,
        cs.len() as int,
        spec_ids(cs),
        crate::parser::strings_view(o.match_pat@),
        spec_builtin_names(),
        o.builtins,
        spec_str_to_ikind(o.override_enum_ty@),
    );
}

proof fn lemma_id_index_span(ids: Seq<DeclIdV>, id: DeclIdV, i: int, j: int)
    requires
        id_index(ids, id, i) == Some(j),
    ensures
        i <= j < ids.len(),
        id_eq_v(ids[j], id),
        forall|p: int| i <= p < j ==> !id_eq_v(#[trigger] ids[p], id),
    decreases ids.len() - i,
{
    if !(i < 0 || i >= ids.len()) && !id_eq_v(ids[i], id) {
        lemma_id_index_span(ids, id, i + 1, j);
    }
}

proof fn lemma_id_index_at(ids: Seq<DeclIdV>, id: DeclIdV, i: int, j: int)
    requires
        0 <= i <= j < ids.len(),
        id_eq_v(ids[j], id),
        forall|p: int| i <= p < j ==> !id_eq_v(#[trigger] ids[p], id),
    ensures
        id_index(ids, id, i) == Some(j),
    decreases j - i,
{
    if i < j {
        lemma_id_index_at(ids, id, i + 1, j);
    }
}

proof fn lemma_ids_prefix(cs: Seq<Cursor>, m: int, n: int)
    requires
        0 <= m <= n,
    ensures
        spec_ids_pre(cs, m).len() <= spec_ids_pre(cs, n).len(),
        forall|k: int|
            0 <= k < spec_ids_pre(cs, m).len() ==> #[trigger] spec_ids_pre(cs, n)[k]
                == spec_ids_pre(cs, m)[k],
    decreases n - m,
{
    if m < n {
        lemma_ids_prefix(cs, m, n - 1);
    }
}

proof fn lemma_parse_len(
    cs: Seq<Cursor>,
    n: int,
    pats: Seq<Seq<char>>,
    builtin_names: Seq<Seq<char>>,
    builtins: bool,
    relaxed: bool,
    override_enum_ty: Option<crate::types::IKind>,
)
    requires
        0 <= n <= cs.len(),
        spec_parse_pre(cs, n, spec_ids(cs), pats, builtin_names, builtins, relaxed,
            override_enum_ty) is Ok,
    ensures
        spec_parse_pre(cs, n, spec_ids(cs), pats, builtin_names, builtins, relaxed,
            override_enum_ty)->Ok_0.len() == spec_ids_pre(cs, n).len(),
    decreases n,
{
    if n > 0 {
        let ids = spec_ids(cs);
        lemma_parse_len(cs, n - 1, pats, builtin_names, builtins, relaxed, override_enum_ty);
        let acc = spec_parse_pre(cs, n - 1, ids, pats, builtin_names, builtins, relaxed,
            override_enum_ty)->Ok_0;
        let pre_ids = spec_ids_pre(cs, n - 1);
        let idv = id_view(cs[n - 1].id);
        lemma_ids_prefix(cs, n - 1, cs.len() as int);
        lemma_ids_prefix(cs, n, cs.len() as int);
        if id_in(pre_ids, idv) {
            // An earlier occurrence exists, so this cursor adds no node.
            let k = choose|k: int| 0 <= k < pre_ids.len() && id_eq_v(#[trigger] pre_ids[k], idv);
            assert(ids[k] == pre_ids[k]);
            if id_index(ids, idv, 0) == Some(acc.len() as int) {
                lemma_id_index_span(ids, idv, 0, acc.len() as int);
                assert(!id_eq_v(ids[k], idv));
                assert(false);
            }
        } else {
            // First occurrence: the node is placed at index `acc.len()`.
            assert(spec_ids_pre(cs, n) == pre_ids.push(idv));
            assert(ids[acc.len() as int] == spec_ids_pre(cs, n)[acc.len() as int]);
            assert(id_eq_v(ids[acc.len() as int], idv));
            assert forall|p: int| 0 <= p < acc.len() implies !id_eq_v(
                #[trigger] ids[p],
                idv,
            ) by {
                assert(ids[p] == pre_ids[p]);
            }
            lemma_id_index_at(ids, idv, 0, acc.len() as int);
        }
    }
}

proof fn lemma_resolve_ty_bounded(t: crate::cursor::CType, ids: Seq<DeclIdV>, relaxed: bool)
    ensures
        crate::parser::spec_resolve_ty(t, ids, relaxed) matches Ok(tv)
            ==> crate::types::ty_refs_bounded(tv, ids.len() as int),
    decreases t, 0int,
{
    match t {
        crate::cursor::CType::Ptr(inner) => lemma_resolve_ty_bounded(*inner, ids, relaxed),
        crate::cursor::CType::Array(el, _) => lemma_resolve_ty_bounded(*el, ids, relaxed),
        crate::cursor::CType::Func(sig) => lemma_resolve_sig_bounded(*sig, ids, relaxed),
        crate::cursor::CType::Ref(id) => {
            if id_index(ids, id_view(id), 0) is Some {
                lemma_id_index_span(ids, id_view(id), 0, id_index(ids, id_view(id), 0)->Some_0);
            }
        },
        _ => {},
    }
}

proof fn lemma_resolve_params_bounded(
    ps: Seq<crate::cursor::CParam>,
    n: int,
    ids: Seq<DeclIdV>,
    relaxed: bool,
)
    ensures
        crate::parser::spec_resolve_params(ps, n, ids, relaxed) matches Ok(rs) ==> forall|i: int|
            0 <= i < rs.len() ==> crate::types::ty_refs_bounded(
                (#[trigger] rs[i]).1,
                ids.len() as int,
            ),
    decreases ps, n,
{
    if !(n <= 0 || n > ps.len()) {
        lemma_resolve_params_bounded(ps, n - 1, ids, relaxed);
        lemma_resolve_ty_bounded(ps[n - 1].ty, ids, relaxed);
    }
}

proof fn lemma_resolve_sig_bounded(s: crate::cursor::CSig, ids: Seq<DeclIdV>, relaxed: bool)
    ensures
        crate::parser::spec_resolve_sig(s, ids, relaxed) matches Ok(sv)
            ==> crate::types::sig_refs_bounded(sv, ids.len() as int),
    decreases s, 1int,
{
    lemma_resolve_params_bounded(s.params@, s.params@.len() as int, ids, relaxed);
    lemma_resolve_ty_bounded(s.ret, ids, relaxed);
}

proof fn lemma_resolve_fields_bounded(
    fs: Seq<crate::cursor::CField>,
    n: int,
    ids: Seq<DeclIdV>,
    relaxed: bool,
)
    ensures
        crate::parser::spec_resolve_fields(fs, n, ids, relaxed) matches Ok(rs) ==> forall|i: int|
            0 <= i < rs.len() ==> crate::types::ty_refs_bounded(
                (#[trigger] rs[i]).ty,
                ids.len() as int,
            ),
    decreases n,
{
    if n > 0 {
        lemma_resolve_fields_bounded(fs, n - 1, ids, relaxed);
        lemma_resolve_ty_bounded(fs[n - 1].ty, ids, relaxed);
    }
}

proof fn lemma_global_bounded(
    c: Cursor,
    j: int,
    ids: Seq<DeclIdV>,
    relaxed: bool,
    override_enum_ty: Option<crate::types::IKind>,
)
    ensures
        crate::parser::spec_global(c, j, ids, relaxed, override_enum_ty) matches Ok(g)
            ==> crate::types::global_refs_bounded(g, ids.len() as int),
{
    lemma_resolve_fields_bounded(c.fields@, c.fields@.len() as int, ids, relaxed);
    lemma_resolve_ty_bounded(c.ty, ids, relaxed);
}

proof fn lemma_parse_bounded(
    cs: Seq<Cursor>,
    n: int,
    pats: Seq<Seq<char>>,
    builtin_names: Seq<Seq<char>>,
    builtins: bool,
    relaxed: bool,
    override_enum_ty: Option<crate::types::IKind>,
)
    requires
        0 <= n <= cs.len(),
    ensures
        spec_parse_pre(cs, n, spec_ids(cs), pats, builtin_names, builtins, relaxed,
            override_enum_ty) matches Ok(ds) ==> forall|k: int|
            0 <= k < ds.len() ==> crate::types::global_refs_bounded(
                (#[trigger] ds[k]).global,
                spec_ids(cs).len() as int,
            ),
    decreases n,
{
    if n > 0 {
        lemma_parse_bounded(cs, n - 1, pats, builtin_names, builtins, relaxed, override_enum_ty);
        let ids = spec_ids(cs);
        let pre = spec_parse_pre(cs, n - 1, ids, pats, builtin_names, builtins, relaxed,
            override_enum_ty);
        if pre is Ok {
            lemma_global_bounded(cs[n - 1], pre->Ok_0.len() as int, ids, relaxed,
                override_enum_ty);
        }
    }
}

/// A successful resolution yields a well-formed graph: identities are
/// unique and every named reference points at a node of the graph, so
/// the generator consumes a fully resolved structure and no reference
/// dangles.
pub proof fn lemma_graph_well_formed(cs: Seq<Cursor>, o: BindgenOptions)
    requires
        spec_parse_of(cs, o) is Ok,
    ensures
        crate::types::graph_wf(spec_parse_of(cs, o)->Ok_0),
{
    let pats = crate::parser::strings_view(o.match_pat@);
    let builtin_names = spec_builtin_names();
    let relaxed = !o.fail_on_unknown_type;
    let ov = spec_str_to_ikind(o.override_enum_ty@);
    let ds = spec_parse_of(cs, o)->Ok_0;
    lemma_no_duplication(cs, o);
    lemma_parse_len(cs, cs.len() as int, pats, builtin_names, o.builtins, relaxed, ov);
    lemma_parse_bounded(cs, cs.len() as int, pats, builtin_names, o.builtins, relaxed, ov);
    assert(ds.len() == spec_ids(cs).len());
}

/// Unknown-type policy, at the point of classification: under the
/// strict policy an unclassifiable type fails resolution; under the
/// relaxed policy it is substituted by the opaque void placeholder.
pub proof fn lemma_unknown_policy(ids: Seq<DeclIdV>)
    ensures
        crate::parser::spec_resolve_ty(crate::cursor::CType::Unknown, ids, false) == Err::<
            crate::types::TypeRefV,
            crate::parser::TyErrV,
        >(crate::parser::TyErrV::Unknown),
        crate::parser::spec_resolve_ty(crate::cursor::CType::Unknown, ids, true) == Ok::<
            crate::types::TypeRefV,
            crate::parser::TyErrV,
        >(crate::types::TypeRefV::Void),
{
}

} // verus!