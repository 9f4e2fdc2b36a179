use bindgen::cursor::CField;
use bindgen::cursor::CParam;
use bindgen::cursor::CSig;
use bindgen::cursor::CType;
use bindgen::cursor::Cursor;
use bindgen::cursor::CursorKind;
use bindgen::cursor::CVariant;
use bindgen::gen::RDecl;
use bindgen::gen::RType;
use bindgen::parser::ResolveError;
use bindgen::types::DeclId;
use bindgen::types::EnumVariant;
use bindgen::types::IKind;
use bindgen::BindgenError;
use bindgen::BindgenOptions;
use bindgen::Bindings;
use bindgen::DummyLogger;
use bindgen::LinkType;

fn decl_id(file: &str, line: usize, name: &str) -> DeclId {
    DeclId { file: file.to_owned(), line, name: name.to_owned() }
}

fn cursor(kind: CursorKind, file: &str, line: usize, name: &str) -> Cursor {
    Cursor {
        kind,
        id: decl_id(file, line, name),
        fields: vec![],
        variants: vec![],
        int_kind: IKind::IUInt,
        ty: CType::Void,
        is_mutable: false,
    }
}

fn int_field(name: &str) -> CField {
    CField { name: name.to_owned(), ty: CType::Int(IKind::IInt), bits: None }
}

fn generate(options: &BindgenOptions, cursors: &Vec<Cursor>) -> Result<Bindings, BindgenError> {
    let mut logger = DummyLogger;
    Bindings::generate(options, cursors, &mut logger)
}

#[test]
fn point_and_color() {
    // struct Point { int x; int y; }; enum Color { RED, GREEN = 5, BLUE };
    let mut point = cursor(CursorKind::StructDecl, "point.h", 1, "Point");
    point.fields = vec![int_field("x"), int_field("y")];
    let mut color = cursor(CursorKind::EnumDecl, "point.h", 4, "Color");
    color.variants = vec![
        CVariant { name: "RED".to_owned(), value: 0 },
        CVariant { name: "GREEN".to_owned(), value: 5 },
        CVariant { name: "BLUE".to_owned(), value: 6 },
    ];
    let out = generate(&BindgenOptions::default(), &vec![point, color]).unwrap();
    assert_eq!(out.items.len(), 2);
    match &out.items[0] {
        RDecl::Composite { name, is_union, fields, .. } => {
            assert_eq!(name, "Point");
            assert!(!is_union);
            assert_eq!(fields.len(), 2);
            assert_eq!(fields[0].name, "x");
            assert_eq!(fields[1].name, "y");
            assert_eq!(fields[0].ty, RType::Int(IKind::IInt));
            assert_eq!(fields[1].ty, RType::Int(IKind::IInt));
        },
        other => panic!("expected a composite, got {:?}", other),
    }
    match &out.items[1] {
        RDecl::Enum { name, variants, .. } => {
            assert_eq!(name, "Color");
            let pairs: Vec<(String, i64)> =
                variants.iter().map(|v| (v.name.clone(), v.value)).collect();
            assert_eq!(
                pairs,
                vec![("RED".to_owned(), 0), ("GREEN".to_owned(), 5), ("BLUE".to_owned(), 6)]
            );
        },
        other => panic!("expected an enum, got {:?}", other),
    }
}

#[test]
fn enum_constants_round_trip() {
    // Duplicate and non-monotonic values survive the constants form.
    let mut e = cursor(CursorKind::EnumDecl, "e.h", 1, "Odd");
    e.variants = vec![
        CVariant { name: "A".to_owned(), value: 7 },
        CVariant { name: "B".to_owned(), value: 7 },
        CVariant { name: "C".to_owned(), value: -2 },
    ];
    let mut options = BindgenOptions::default();
    options.rust_enums = false;
    let out = generate(&options, &vec![e]).unwrap();
    match &out.items[0] {
        RDecl::Constants { alias, repr, consts } => {
            assert_eq!(alias, "Odd");
            assert_eq!(*repr, IKind::IUInt);
            let pairs: Vec<(String, i64)> =
                consts.iter().map(|v| (v.name.clone(), v.value)).collect();
            assert_eq!(
                pairs,
                vec![("A".to_owned(), 7), ("B".to_owned(), 7), ("C".to_owned(), -2)]
            );
        },
        other => panic!("expected constants, got {:?}", other),
    }
}

#[test]
fn enum_kind_override_applies_to_all() {
    let mut e = cursor(CursorKind::EnumDecl, "e.h", 1, "Kinds");
    e.variants = vec![CVariant { name: "K".to_owned(), value: 1 }];
    e.int_kind = IKind::IInt;
    let mut options = BindgenOptions::default();
    options.override_enum_ty = "uchar".to_owned();
    let out = generate(&options, &vec![e]).unwrap();
    match &out.items[0] {
        RDecl::Enum { repr, .. } => assert_eq!(*repr, IKind::IUChar),
        other => panic!("expected an enum, got {:?}", other),
    }
}

#[test]
fn layout_bitfields_preserved() {
    // struct Flags { unsigned a : 3; unsigned b : 5; int c; };
    let mut s = cursor(CursorKind::StructDecl, "f.h", 1, "Flags");
    s.fields = vec![
        CField { name: "a".to_owned(), ty: CType::Int(IKind::IUInt), bits: Some(3) },
        CField { name: "b".to_owned(), ty: CType::Int(IKind::IUInt), bits: Some(5) },
        int_field("c"),
    ];
    let out = generate(&BindgenOptions::default(), &vec![s]).unwrap();
    match &out.items[0] {
        RDecl::Composite { fields, .. } => {
            let got: Vec<(String, Option<u32>)> =
                fields.iter().map(|f| (f.name.clone(), f.bits)).collect();
            assert_eq!(
                got,
                vec![
                    ("a".to_owned(), Some(3)),
                    ("b".to_owned(), Some(5)),
                    ("c".to_owned(), None)
                ]
            );
        },
        other => panic!("expected a composite, got {:?}", other),
    }
}

#[test]
fn self_referential_struct_terminates() {
    // struct Node { struct Node *next; int value; };
    let id = decl_id("n.h", 1, "Node");
    let mut node = cursor(CursorKind::StructDecl, "n.h", 1, "Node");
    node.fields = vec![
        CField {
            name: "next".to_owned(),
            ty: CType::Ptr(Box::new(CType::Ref(id.clone()))),
            bits: None,
        },
        int_field("value"),
    ];
    let out = generate(&BindgenOptions::default(), &vec![node]).unwrap();
    assert_eq!(out.items.len(), 1);
    match &out.items[0] {
        RDecl::Composite { name, fields, .. } => {
            assert_eq!(name, "Node");
            assert_eq!(fields[0].ty, RType::Ptr(Box::new(RType::Named("Node".to_owned()))));
        },
        other => panic!("expected a composite, got {:?}", other),
    }
}

#[test]
fn redeclaration_collapses() {
    // The same declaration arriving twice (header guards) yields one node.
    let mut a = cursor(CursorKind::StructDecl, "a.h", 3, "Once");
    a.fields = vec![int_field("x")];
    let mut b = cursor(CursorKind::StructDecl, "a.h", 3, "Once");
    b.fields = vec![int_field("x")];
    let out = generate(&BindgenOptions::default(), &vec![a, b]).unwrap();
    assert_eq!(out.items.len(), 1);
}

#[test]
fn filter_retains_matching_file_only() {
    let mut options = BindgenOptions::default();
    options.match_pat = vec!["wanted".to_owned()];
    let out = generate(
        &options,
        &vec![
            cursor(CursorKind::StructDecl, "wanted.h", 1, "A"),
            cursor(CursorKind::StructDecl, "other.h", 1, "B"),
        ],
    )
    .unwrap();
    let names: Vec<String> = out
        .items
        .iter()
        .filter_map(|d| match d {
            RDecl::Composite { name, .. } => Some(name.clone()),
            _ => None,
        })
        .collect();
    assert_eq!(names, vec!["A".to_owned()]);

    let out2 = generate(
        &BindgenOptions::default(),
        &vec![
            cursor(CursorKind::StructDecl, "wanted.h", 1, "A"),
            cursor(CursorKind::StructDecl, "other.h", 1, "B"),
        ],
    )
    .unwrap();
    let names2: Vec<String> = out2
        .items
        .iter()
        .filter_map(|d| match d {
            RDecl::Composite { name, .. } => Some(name.clone()),
            _ => None,
        })
        .collect();
    assert_eq!(names2, vec!["A".to_owned(), "B".to_owned()]);
}

#[test]
fn unknown_type_strict_fails() {
    let mut v = cursor(CursorKind::VarDecl, "u.h", 1, "mystery");
    v.ty = CType::Unknown;
    let err = generate(&BindgenOptions::default(), &vec![v]).unwrap_err();
    match err {
        BindgenError::Resolve(ResolveError::UnknownType { decl }) => {
            assert_eq!(decl, "mystery");
        },
        other => panic!("expected an unknown-type failure, got {:?}", other),
    }
}

#[test]
fn unknown_type_relaxed_substitutes_void() {
    let mut v = cursor(CursorKind::VarDecl, "u.h", 1, "mystery");
    v.ty = CType::Unknown;
    let mut options = BindgenOptions::default();
    options.fail_on_unknown_type = false;
    let out = generate(&options, &vec![v]).unwrap();
    match &out.items[0] {
        RDecl::ExternBlock { statics, .. } => {
            assert_eq!(statics.len(), 1);
            assert_eq!(statics[0].name, "mystery");
            assert_eq!(statics[0].ty, RType::Void);
        },
        other => panic!("expected an extern block, got {:?}", other),
    }
}

#[test]
fn unresolved_reference_fails() {
    let mut v = cursor(CursorKind::VarDecl, "u.h", 1, "orphan");
    v.ty = CType::Ref(decl_id("nowhere.h", 9, "Ghost"));
    let err = generate(&BindgenOptions::default(), &vec![v]).unwrap_err();
    match err {
        BindgenError::Resolve(ResolveError::UnresolvedReference { decl, target }) => {
            assert_eq!(decl, "orphan");
            assert_eq!(target, "Ghost");
        },
        other => panic!("expected an unresolved reference, got {:?}", other),
    }
}

#[test]
fn name_collision_fails() {
    let a = cursor(CursorKind::StructDecl, "a.h", 1, "Twin");
    let b = cursor(CursorKind::EnumDecl, "a.h", 9, "Twin");
    let err = generate(&BindgenOptions::default(), &vec![a, b]).unwrap_err();
    match err {
        BindgenError::Gen(bindgen::gen::GenError::NameCollision { name }) => {
            assert_eq!(name, "Twin");
        },
        other => panic!("expected a name collision, got {:?}", other),
    }
}

#[test]
fn builtins_suppressed_by_default() {
    let out = generate(
        &BindgenOptions::default(),
        &vec![cursor(CursorKind::StructDecl, "sys.h", 1, "__builtin_va_list")],
    )
    .unwrap();
    assert!(out.items.is_empty());
    let mut options = BindgenOptions::default();
    options.builtins = true;
    let out2 = generate(
        &options,
        &vec![cursor(CursorKind::StructDecl, "sys.h", 1, "__builtin_va_list")],
    )
    .unwrap();
    assert_eq!(out2.items.len(), 1);
}

#[test]
fn linkage_groupings_per_target() {
    let mut f = cursor(CursorKind::FunctionDecl, "m.h", 1, "foo");
    f.ty = CType::Func(Box::new(CSig {
        params: vec![],
        ret: CType::Int(IKind::IInt),
        variadic: false,
    }));
    let mut options = BindgenOptions::default();
    options.links = vec![
        ("m".to_owned(), LinkType::Static),
        ("c".to_owned(), LinkType::Dynamic),
    ];
    options.link_prefix = "ffi_".to_owned();
    let out = generate(&options, &vec![f]).unwrap();
    assert_eq!(out.items.len(), 2);
    let mut seen = vec![];
    for item in &out.items {
        match item {
            RDecl::ExternBlock { link, fns, .. } => {
                seen.push(link.clone().unwrap());
                assert_eq!(fns.len(), 1);
                assert_eq!(fns[0].name, "ffi_foo");
            },
            other => panic!("expected an extern block, got {:?}", other),
        }
    }
    assert_eq!(
        seen,
        vec![("m".to_owned(), LinkType::Static), ("c".to_owned(), LinkType::Dynamic)]
    );
}

#[test]
fn pipeline_is_deterministic() {
    let mut point = cursor(CursorKind::StructDecl, "p.h", 1, "P");
    point.fields = vec![int_field("x")];
    let mut e = cursor(CursorKind::EnumDecl, "p.h", 5, "E");
    e.variants = vec![CVariant { name: "V".to_owned(), value: 3 }];
    let cursors = vec![point, e];
    let options = BindgenOptions::default();
    let first = generate(&options, &cursors);
    let second = generate(&options, &cursors);
    assert_eq!(first, second);
}

#[test]
fn func_ptr_static() {
    // extern int (*foo)(int x, int y);
    let sig = CSig {
        params: vec![
            CParam { name: "x".to_owned(), ty: CType::Int(IKind::IInt) },
            CParam { name: "y".to_owned(), ty: CType::Int(IKind::IInt) },
        ],
        ret: CType::Int(IKind::IInt),
        variadic: false,
    };
    let mut v = cursor(CursorKind::VarDecl, "fp.h", 1, "foo");
    v.ty = CType::Ptr(Box::new(CType::Func(Box::new(sig))));
    v.is_mutable = true;
    let out = generate(&BindgenOptions::default(), &vec![v]).unwrap();
    match &out.items[0] {
        RDecl::ExternBlock { statics, .. } => {
            assert!(statics[0].is_mutable);
            match &statics[0].ty {
                RType::NullableFn(s) => {
                    assert_eq!(s.params.len(), 2);
                    assert_eq!(s.params[0].name, "x");
                    assert_eq!(s.ret, RType::Int(IKind::IInt));
                },
                other => panic!("expected a nullable callable, got {:?}", other),
            }
        },
        other => panic!("expected an extern block, got {:?}", other),
    }
}

#[test]
fn func_proto_alias() {
    // typedef int foo(int bar);
    let sig = CSig {
        params: vec![CParam { name: "bar".to_owned(), ty: CType::Int(IKind::IInt) }],
        ret: CType::Int(IKind::IInt),
        variadic: false,
    };
    let mut t = cursor(CursorKind::TypedefDecl, "fp.h", 1, "foo");
    t.ty = CType::Func(Box::new(sig));
    let out = generate(&BindgenOptions::default(), &vec![t]).unwrap();
    match &out.items[0] {
        RDecl::TypeAlias { name, ty } => {
            assert_eq!(name, "foo");
            assert!(matches!(ty, RType::BareFn(_)));
        },
        other => panic!("expected a type alias, got {:?}", other),
    }
}

#[test]
fn anonymous_struct_gets_synthesized_name() {
    let mut s = cursor(CursorKind::StructDecl, "a.h", 2, "");
    s.fields = vec![int_field("x")];
    let out = generate(&BindgenOptions::default(), &vec![s]).unwrap();
    match &out.items[0] {
        RDecl::Composite { name, .. } => assert_eq!(name, "Unnamed0"),
        other => panic!("expected a composite, got {:?}", other),
    }
}

#[test]
fn anonymous_field_gets_synthesized_name() {
    let mut s = cursor(CursorKind::StructDecl, "a.h", 2, "Holder");
    s.fields = vec![
        CField { name: String::new(), ty: CType::Int(IKind::IInt), bits: None },
        int_field("y"),
    ];
    let out = generate(&BindgenOptions::default(), &vec![s]).unwrap();
    match &out.items[0] {
        RDecl::Composite { fields, .. } => {
            assert_eq!(fields[0].name, "unnamed_field0");
            assert_eq!(fields[1].name, "y");
        },
        other => panic!("expected a composite, got {:?}", other),
    }
}

#[test]
fn suppression_toggles() {
    let mut f = cursor(CursorKind::FunctionDecl, "s.h", 1, "f");
    f.ty = CType::Func(Box::new(CSig { params: vec![], ret: CType::Void, variadic: false }));
    let mut e = cursor(CursorKind::EnumDecl, "s.h", 2, "E");
    e.variants = vec![CVariant { name: "V".to_owned(), value: 0 }];
    let mut options = BindgenOptions::default();
    options.functions = false;
    options.enums = false;
    let out = generate(&options, &vec![f, e]).unwrap();
    assert!(out.items.is_empty());
}

#[test]
fn attributes_preamble_fixed() {
    let out = generate(&BindgenOptions::default(), &vec![]).unwrap();
    assert!(out.items.is_empty());
    assert_eq!(
        out.attributes,
        vec![
            "allow(non_camel_case_types)".to_owned(),
            "allow(non_snake_case)".to_owned(),
            "allow(non_upper_case_globals)".to_owned()
        ]
    );
}

#[test]
fn into_ast_hands_out_items() {
    let mut s = cursor(CursorKind::StructDecl, "i.h", 1, "S");
    s.fields = vec![int_field("x")];
    let out = generate(&BindgenOptions::default(), &vec![s]).unwrap();
    let items = out.into_ast();
    assert_eq!(items.len(), 1);
}

#[test]
fn variadic_function_flag_kept() {
    let sig = CSig {
        params: vec![CParam { name: "fmt".to_owned(), ty: CType::Ptr(Box::new(CType::Int(IKind::ISChar))) }],
        ret: CType::Int(IKind::IInt),
        variadic: true,
    };
    let mut f = cursor(CursorKind::FunctionDecl, "v.h", 1, "printf_like");
    f.ty = CType::Func(Box::new(sig));
    let out = generate(&BindgenOptions::default(), &vec![f]).unwrap();
    match &out.items[0] {
        RDecl::ExternBlock { fns, .. } => {
            assert_eq!(fns[0].name, "printf_like");
            assert!(fns[0].sig.variadic);
        },
        other => panic!("expected an extern block, got {:?}", other),
    }
}

#[test]
fn parse_headers_builds_graph() {
    let mut logger = DummyLogger;
    let s = cursor(CursorKind::StructDecl, "g.h", 1, "G");
    let decls =
        bindgen::parse_headers(&BindgenOptions::default(), &vec![s], &mut logger).unwrap();
    assert_eq!(decls.len(), 1);
    assert!(decls[0].retained);
    assert_eq!(decls[0].id.name, "G");
    match &decls[0].global {
        bindgen::types::Global::GComp(c) => assert_eq!(c.name, "G"),
        other => panic!("expected a composite node, got {:?}", other),
    }
}

#[test]
fn enum_variants_kept_in_graph() {
    let mut logger = DummyLogger;
    let mut e = cursor(CursorKind::EnumDecl, "g.h", 1, "E");
    e.variants = vec![
        CVariant { name: "X".to_owned(), value: 10 },
        CVariant { name: "Y".to_owned(), value: 10 },
    ];
    let decls =
        bindgen::parse_headers(&BindgenOptions::default(), &vec![e], &mut logger).unwrap();
    match &decls[0].global {
        bindgen::types::Global::GEnum(info) => {
            assert_eq!(
                info.variants,
                vec![
                    EnumVariant { name: "X".to_owned(), value: 10 },
                    EnumVariant { name: "Y".to_owned(), value: 10 }
                ]
            );
        },
        other => panic!("expected an enum node, got {:?}", other),
    }
}

struct RecordingLogger {
    errors: Vec<String>,
}

impl bindgen::Logger for RecordingLogger {
    fn error(&mut self, msg: &str) {
        self.errors.push(msg.to_owned());
    }

    fn warn(&mut self, _msg: &str) {}
}

#[test]
fn errors_reach_the_sink() {
    let mut logger = RecordingLogger { errors: vec![] };
    let mut v = cursor(CursorKind::VarDecl, "u.h", 1, "mystery");
    v.ty = CType::Unknown;
    let r = Bindings::generate(&BindgenOptions::default(), &vec![v], &mut logger);
    assert!(r.is_err());
    assert_eq!(
        logger.errors,
        vec!["unknown type in declaration mystery".to_owned()]
    );
}

#[test]
fn collision_reaches_the_sink() {
    let mut logger = RecordingLogger { errors: vec![] };
    let a = cursor(CursorKind::StructDecl, "a.h", 1, "Twin");
    let b = cursor(CursorKind::EnumDecl, "a.h", 9, "Twin");
    let r = Bindings::generate(&BindgenOptions::default(), &vec![a, b], &mut logger);
    assert!(r.is_err());
    assert_eq!(
        logger.errors,
        vec!["duplicate declaration name Twin".to_owned()]
    );
}

#[test]
fn builder_generate_runs_the_pipeline() {
    let mut build = bindgen::builder::<DummyLogger>();
    build.match_pat("keep");
    let cursors = vec![
        cursor(CursorKind::StructDecl, "keep.h", 1, "K"),
        cursor(CursorKind::StructDecl, "drop.h", 1, "D"),
    ];
    let out = build.generate(&cursors).unwrap();
    assert_eq!(out.items.len(), 1);
}

#[test]
fn empty_origin_is_retained_by_default() {
    let mut options = BindgenOptions::default();
    options.match_pat = vec!["only-this.h".to_owned()];
    let out = generate(
        &options,
        &vec![cursor(CursorKind::StructDecl, "", 1, "NoOrigin")],
    )
    .unwrap();
    assert_eq!(out.items.len(), 1);
}

#[test]
fn empty_pattern_matches_every_file() {
    let mut options = BindgenOptions::default();
    options.match_pat = vec![String::new()];
    let out = generate(
        &options,
        &vec![cursor(CursorKind::StructDecl, "whatever.h", 1, "S")],
    )
    .unwrap();
    assert_eq!(out.items.len(), 1);
}

#[test]
fn mutually_recursive_structs_resolve() {
    // struct A { struct B *b; }; struct B { struct A *a; };
    let id_a = decl_id("m.h", 1, "A");
    let id_b = decl_id("m.h", 4, "B");
    let mut a = cursor(CursorKind::StructDecl, "m.h", 1, "A");
    a.fields = vec![CField {
        name: "b".to_owned(),
        ty: CType::Ptr(Box::new(CType::Ref(id_b.clone()))),
        bits: None,
    }];
    let mut b = cursor(CursorKind::StructDecl, "m.h", 4, "B");
    b.fields = vec![CField {
        name: "a".to_owned(),
        ty: CType::Ptr(Box::new(CType::Ref(id_a.clone()))),
        bits: None,
    }];
    let out = generate(&BindgenOptions::default(), &vec![a, b]).unwrap();
    assert_eq!(out.items.len(), 2);
    match (&out.items[0], &out.items[1]) {
        (
            RDecl::Composite { name: na, fields: fa, .. },
            RDecl::Composite { name: nb, fields: fb, .. },
        ) => {
            assert_eq!(na, "A");
            assert_eq!(nb, "B");
            assert_eq!(fa[0].ty, RType::Ptr(Box::new(RType::Named("B".to_owned()))));
            assert_eq!(fb[0].ty, RType::Ptr(Box::new(RType::Named("A".to_owned()))));
        },
        other => panic!("expected two composites, got {:?}", other),
    }
}

#[test]
fn union_flag_preserved() {
    let mut u = cursor(CursorKind::UnionDecl, "u.h", 1, "Mix");
    u.fields = vec![int_field("a"), int_field("b")];
    let out = generate(&BindgenOptions::default(), &vec![u]).unwrap();
    match &out.items[0] {
        RDecl::Composite { is_union, .. } => assert!(is_union),
        other => panic!("expected a composite, got {:?}", other),
    }
}

#[test]
fn func_ptr_in_struct_returns_enum() {
    // enum baz { TEST }; struct Foo { baz (*bar)(int x, int y); };
    let id_baz = decl_id("fs.h", 1, "baz");
    let mut baz = cursor(CursorKind::EnumDecl, "fs.h", 1, "baz");
    baz.variants = vec![CVariant { name: "TEST".to_owned(), value: 0 }];
    let sig = CSig {
        params: vec![
            CParam { name: "x".to_owned(), ty: CType::Int(IKind::IInt) },
            CParam { name: "y".to_owned(), ty: CType::Int(IKind::IInt) },
        ],
        ret: CType::Ref(id_baz),
        variadic: false,
    };
    let mut foo = cursor(CursorKind::StructDecl, "fs.h", 4, "Foo");
    foo.fields = vec![CField {
        name: "bar".to_owned(),
        ty: CType::Ptr(Box::new(CType::Func(Box::new(sig)))),
        bits: None,
    }];
    let out = generate(&BindgenOptions::default(), &vec![baz, foo]).unwrap();
    assert_eq!(out.items.len(), 2);
    match &out.items[1] {
        RDecl::Composite { fields, .. } => match &fields[0].ty {
            RType::NullableFn(s) => {
                assert_eq!(s.ret, RType::Named("baz".to_owned()));
            },
            other => panic!("expected a nullable callable, got {:?}", other),
        },
        other => panic!("expected a composite, got {:?}", other),
    }
}

#[test]
fn func_with_func_ptr_arg() {
    // void foo(void (*bar)(void));
    let inner = CSig { params: vec![], ret: CType::Void, variadic: false };
    let sig = CSig {
        params: vec![CParam {
            name: "bar".to_owned(),
            ty: CType::Ptr(Box::new(CType::Func(Box::new(inner)))),
        }],
        ret: CType::Void,
        variadic: false,
    };
    let mut f = cursor(CursorKind::FunctionDecl, "fa.h", 1, "foo");
    f.ty = CType::Func(Box::new(sig));
    let out = generate(&BindgenOptions::default(), &vec![f]).unwrap();
    match &out.items[0] {
        RDecl::ExternBlock { fns, .. } => {
            assert_eq!(fns[0].name, "foo");
            assert!(matches!(fns[0].sig.params[0].ty, RType::NullableFn(_)));
        },
        other => panic!("expected an extern block, got {:?}", other),
    }
}
