use bindgen::builder;
use bindgen::str_to_ikind;
use bindgen::types::IKind;
use bindgen::BindgenOptions;
use bindgen::DummyLogger;
use bindgen::LinkType;

#[test]
fn builder_state() {
    let logger = DummyLogger;
    let mut build = builder();
    {
        build.header("example.h");
        build.link("m", LinkType::Static);
        build.log(logger);
    }
    assert!(build.logger.is_some());
    assert!(build.options.clang_args.binary_search(&"example.h".to_owned()).is_ok());
    assert!(build.options.links.binary_search(&("m".to_owned(), LinkType::Static)).is_ok());
}

#[test]
fn default_options() {
    let o = BindgenOptions::default();
    assert!(o.match_pat.is_empty());
    assert!(!o.builtins);
    assert!(o.rust_enums);
    assert!(o.links.is_empty());
    assert!(!o.emit_ast);
    assert!(o.fail_on_unknown_type);
    assert_eq!(o.override_enum_ty, String::new());
    assert!(o.clang_args.is_empty());
    assert!(o.derive_debug);
    assert_eq!(o.link_prefix, String::new());
    assert!(o.functions && o.enums && o.globals && o.types);
}

#[test]
fn builder_toggles() {
    let mut build = builder::<DummyLogger>();
    build.forbid_unknown_types();
    build.builtins();
    build.derive_debug(false);
    build.rust_enums(false);
    build.emit_ast(true);
    build.override_enum_ty("uchar");
    build.link_prefix("my_");
    build.match_pat("foo.h");
    assert!(build.options.fail_on_unknown_type);
    assert!(build.options.builtins);
    assert!(!build.options.derive_debug);
    assert!(!build.options.rust_enums);
    assert!(build.options.emit_ast);
    assert_eq!(build.options.override_enum_ty, "uchar");
    assert_eq!(build.options.link_prefix, "my_");
    assert_eq!(build.options.match_pat, vec!["foo.h".to_owned()]);
}

#[test]
fn builtin_names_fixed_set() {
    let names = bindgen::builtin_names();
    assert_eq!(
        names,
        vec![
            "__va_list_tag".to_owned(),
            "__va_list".to_owned(),
            "__builtin_va_list".to_owned()
        ]
    );
}

#[test]
fn enum_override_keywords() {
    assert_eq!(str_to_ikind("uchar"), Some(IKind::IUChar));
    assert_eq!(str_to_ikind("schar"), Some(IKind::ISChar));
    assert_eq!(str_to_ikind("ushort"), Some(IKind::IUShort));
    assert_eq!(str_to_ikind("sshort"), Some(IKind::IShort));
    assert_eq!(str_to_ikind("uint"), Some(IKind::IUInt));
    assert_eq!(str_to_ikind("sint"), Some(IKind::IInt));
    assert_eq!(str_to_ikind("ulong"), Some(IKind::IULong));
    assert_eq!(str_to_ikind("slong"), Some(IKind::ILong));
    assert_eq!(str_to_ikind("ulonglong"), Some(IKind::IULongLong));
    assert_eq!(str_to_ikind("slonglong"), Some(IKind::ILongLong));
    assert_eq!(str_to_ikind(""), None);
    assert_eq!(str_to_ikind("int"), None);
}
