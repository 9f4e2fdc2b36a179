//! Generation of foreign-function-interface bindings from C header
//! declarations.
//!
//! The pipeline has three stages: an ingestion adapter (outside this
//! library) hands over a tree of cursors describing the parsed headers;
//! the resolver in [`parser`] turns the cursors into a declaration
//! graph; the generator in [`gen`] maps that graph to target-language
//! declaration nodes.  Rendering the nodes to text and all I/O stay
//! outside the library.  Every stage's result is pinned to a
//! specification function of its input, so a run is a pure function of
//! the cursors and the configuration.

use vstd::prelude::*;

mod strutil;
pub mod cursor;
pub mod gen;
pub mod laws;
pub mod parser;
pub mod types;

verus! {

broadcast use vstd::seq::group_seq_axioms, vstd::std_specs::vec::group_vec_axioms;

/// The pluggable diagnostics sink: the pipeline reports errors and
/// warnings through it and never assumes a concrete output stream.
pub trait Logger {
    fn error(&mut self, msg: &str);

    fn warn(&mut self, msg: &str);
}

/// A sink that drops every diagnostic.
#[derive(Debug, Clone, Copy, PartialEq, Eq, Structural)]
pub struct DummyLogger;

impl Logger for DummyLogger {
    fn error(&mut self, _msg: &str) {
    }

    fn warn(&mut self, _msg: &str) {
    }
}

/// The linkage category under which external symbols are grouped.
#[derive(Debug, Copy, Clone, PartialEq, Eq, Structural, PartialOrd, Ord)]
pub enum LinkType {
    Static,
    Dynamic,
    Framework,
}

/// The run configuration: the sole input of the pipeline besides the
/// cursors themselves.
#[derive(Debug, Clone)]
pub struct BindgenOptions {
    pub match_pat: Vec<String>,
    pub builtins: bool,
    pub rust_enums: bool,
    pub links: Vec<(String, LinkType)>,
    pub emit_ast: bool,
    pub fail_on_unknown_type: bool,
    pub override_enum_ty: String,
    pub clang_args: Vec<String>,
    pub derive_debug: bool,
    pub link_prefix: String,
    pub functions: bool,
    pub enums: bool,
    pub globals: bool,
    pub types: bool,
}

/// The default configuration: everything emitted, enums native,
/// unknown types fatal, no filter, no links, no prefix.
pub open spec fn spec_default_options(o: BindgenOptions) -> bool {
    &&& o.match_pat@ == Seq::<String>::empty()
    &&& o.builtins == false
    &&& o.rust_enums == true
    &&& o.links@ == Seq::<(String, LinkType)>::empty()
    &&& o.emit_ast == false
    &&& o.fail_on_unknown_type == true
    &&& o.override_enum_ty@ == Seq::<char>::empty()
    &&& o.clang_args@ == Seq::<String>::empty()
    &&& o.derive_debug == true
    &&& o.link_prefix@ == Seq::<char>::empty()
    &&& o.functions == true
    &&& o.enums == true
    &&& o.globals == true
    &&& o.types == true
}

impl Default for BindgenOptions {
    fn default() -> (r: BindgenOptions)
        ensures
            spec_default_options(r),
    {
        BindgenOptions {
            match_pat: Vec::new(),
            builtins: false,
            rust_enums: true,
            links: Vec::new(),
            emit_ast: false,
            fail_on_unknown_type: true,
            override_enum_ty: String::new(),
            clang_args: Vec::new(),
            derive_debug: true,
            link_prefix: String::new(),
            functions: true,
            enums: true,
            globals: true,
            types: true,
        }
    }
}

/// Accumulates a run configuration and an optional diagnostics sink.
#[derive(Debug)]
pub struct Builder<L> {
    pub options: BindgenOptions,
    pub logger: Option<L>,
}

/// A fresh builder with the default configuration and no sink.
pub fn builder<L>() -> (b: Builder<L>)
    ensures
        spec_default_options(b.options),
        b.logger is None,
{
    Builder { options: BindgenOptions::default(), logger: None }
}

impl<L> Default for Builder<L> {
    fn default() -> (b: Builder<L>)
        ensures
            spec_default_options(b.options),
            b.logger is None,
    {
        builder()
    }
}

impl<L> Builder<L> {
    /// Add a C header to parse.
    pub fn header(&mut self, header: &str)
        ensures
            final(self).logger == old(self).logger,
            final(self).options == (BindgenOptions {
                clang_args: final(self).options.clang_args,
                ..old(self).options
            }),
            parser::strings_view(final(self).options.clang_args@) == parser::strings_view(
                old(self).options.clang_args@,
            ).push(header@),
    {
        self.clang_arg(header)
    }

    /// Restrict output to declarations from files whose name contains
    /// the pattern.
    pub fn match_pat(&mut self, arg: &str)
        ensures
            final(self).logger == old(self).logger,
            final(self).options == (BindgenOptions {
                match_pat: final(self).options.match_pat,
                ..old(self).options
            }),
            parser::strings_view(final(self).options.match_pat@) == parser::strings_view(
                old(self).options.match_pat@,
            ).push(arg@),
    {
        self.options.match_pat.push(String::from_str(arg));
        proof {
            assert(parser::strings_view(self.options.match_pat@) =~= parser::strings_view(
                old(self).options.match_pat@,
            ).push(arg@));
        }
    }

    /// Add a front-end command-line argument.
    pub fn clang_arg(&mut self, arg: &str)
        ensures
            final(self).logger == old(self).logger,
            final(self).options == (BindgenOptions {
                clang_args: final(self).options.clang_args,
                ..old(self).options
            }),
            parser::strings_view(final(self).options.clang_args@) == parser::strings_view(
                old(self).options.clang_args@,
            ).push(arg@),
    {
        self.options.clang_args.push(String::from_str(arg));
        proof {
            assert(parser::strings_view(self.options.clang_args@) =~= parser::strings_view(
                old(self).options.clang_args@,
            ).push(arg@));
        }
    }

    /// Add a library to link.
    pub fn link(&mut self, library: &str, link_type: LinkType)
        ensures
            final(self).logger == old(self).logger,
            final(self).options == (BindgenOptions {
                links: final(self).options.links,
                ..old(self).options
            }),
            links_view(final(self).options.links@) == links_view(old(self).options.links@).push(
                (library@, link_type),
            ),
    {
        self.options.links.push((String::from_str(library), link_type));
        proof {
            assert(links_view(self.options.links@) =~= links_view(old(self).options.links@).push(
                (library@, link_type),
            ));
        }
    }

    /// Fail the whole run when a type is not recognized.
    pub fn forbid_unknown_types(&mut self)
        ensures
            final(self).logger == old(self).logger,
            final(self).options == (BindgenOptions {
                fail_on_unknown_type: true,
                ..old(self).options
            }),
    {
        self.options.fail_on_unknown_type = true;
    }

    /// Also emit compiler-builtin declarations.
    pub fn builtins(&mut self)
        ensures
            final(self).logger == old(self).logger,
            final(self).options == (BindgenOptions { builtins: true, ..old(self).options }),
    {
        self.options.builtins = true;
    }

    /// Control whether generated composites carry debug decoration.
    pub fn derive_debug(&mut self, derive_debug: bool)
        ensures
            final(self).logger == old(self).logger,
            final(self).options == (BindgenOptions { derive_debug, ..old(self).options }),
    {
        self.options.derive_debug = derive_debug;
    }

    /// Represent C enums natively, or as typed constants.
    pub fn rust_enums(&mut self, value: bool)
        ensures
            final(self).logger == old(self).logger,
            final(self).options == (BindgenOptions { rust_enums: value, ..old(self).options }),
    {
        self.options.rust_enums = value;
    }

    /// Set the diagnostics sink to use.
    pub fn log(&mut self, logger: L)
        ensures
            final(self).options == old(self).options,
            final(self).logger == Some(logger),
    {
        self.logger = Some(logger);
    }

    /// Override the underlying type of every enum in the run.
    pub fn override_enum_ty(&mut self, ty: &str)
        ensures
            final(self).logger == old(self).logger,
            final(self).options == (BindgenOptions {
                override_enum_ty: final(self).options.override_enum_ty,
                ..old(self).options
            }),
            final(self).options.override_enum_ty@ == ty@,
    {
        self.options.override_enum_ty = String::from_str(ty);
    }

    /// Also keep a raw dump of the parsed tree, for debugging.
    pub fn emit_ast(&mut self, value: bool)
        ensures
            final(self).logger == old(self).logger,
            final(self).options == (BindgenOptions { emit_ast: value, ..old(self).options }),
    {
        self.options.emit_ast = value;
    }

    /// Set the prefix applied to every emitted external symbol name.
    pub fn link_prefix(&mut self, value: &str)
        ensures
            final(self).logger == old(self).logger,
            final(self).options == (BindgenOptions {
                link_prefix: final(self).options.link_prefix,
                ..old(self).options
            }),
            final(self).options.link_prefix@ == value@,
    {
        self.options.link_prefix = String::from_str(value);
    }
}

impl<L: Logger> Builder<L> {
    /// Generate the bindings from the given cursors, using the options
    /// previously set and the configured sink, if any.
    pub fn generate(&mut self, cursors: &Vec<cursor::Cursor>) -> (r: Result<Bindings, BindgenError>)
        ensures
            final(self).options == old(self).options,
            bindings_result_view(r) == spec_generate(cursors@, old(self).options),
    {
        match &mut self.logger {
            Some(l) => Bindings::generate(&self.options, cursors, l),
            None => {
                let mut quiet = DummyLogger;
                Bindings::generate(&self.options, cursors, &mut quiet)
            },
        }
    }
}

/// View of a link-target list.
pub open spec fn links_view(v: Seq<(String, LinkType)>) -> Seq<(Seq<char>, LinkType)> {
    v.map(|i: int, p: (String, LinkType)| (p.0@, p.1))
}

/// The fixed set of compiler-builtin type names that are suppressed
/// unless builtins are requested.
pub open spec fn spec_builtin_names() -> Seq<Seq<char>> {
    seq!["__va_list_tag"@, "__va_list"@, "__builtin_va_list"@]
}

pub fn builtin_names() -> (r: Vec<String>)
    ensures
        parser::strings_view(r@) == spec_builtin_names(),
{
    let mut r: Vec<String> = Vec::new();
    r.push(String::from_str("__va_list_tag"));
    r.push(String::from_str("__va_list"));
    r.push(String::from_str("__builtin_va_list"));
    proof {
        assert(parser::strings_view(r@) =~= spec_builtin_names());
    }
    r
}

/// The enum-override keyword accepted by the configuration, mapped to
/// its integer kind; any other text means no override.
pub open spec fn spec_str_to_ikind(s: Seq<char>) -> Option<types::IKind> {
    if s == "uchar"@ {
        Some(types::IKind::IUChar)
    } else if s == "schar"@ {
        Some(types::IKind::ISChar)
    } else if s == "ushort"@ {
        Some(types::IKind::IUShort)
    } else if s == "sshort"@ {
        Some(types::IKind::IShort)
    } else if s == "uint"@ {
        Some(types::IKind::IUInt)
    } else if s == "sint"@ {
        Some(types::IKind::IInt)
    } else if s == "ulong"@ {
        Some(types::IKind::IULong)
    } else if s == "slong"@ {
        Some(types::IKind::ILong)
    } else if s == "ulonglong"@ {
        Some(types::IKind::IULongLong)
    } else if s == "slonglong"@ {
        Some(types::IKind::ILongLong)
    } else {
        None
    }
}

pub fn str_to_ikind(s: &str) -> (r: Option<types::IKind>)
    ensures
        r == spec_str_to_ikind(s@),
{
    if strutil::str_eq(s, "uchar") {
        Some(types::IKind::IUChar)
    } else if strutil::str_eq(s, "schar") {
        Some(types::IKind::ISChar)
    } else if strutil::str_eq(s, "ushort") {
        Some(types::IKind::IUShort)
    } else if strutil::str_eq(s, "sshort") {
        Some(types::IKind::IShort)
    } else if strutil::str_eq(s, "uint") {
        Some(types::IKind::IUInt)
    } else if strutil::str_eq(s, "sint") {
        Some(types::IKind::IInt)
    } else if strutil::str_eq(s, "ulong") {
        Some(types::IKind::IULong)
    } else if strutil::str_eq(s, "slong") {
        Some(types::IKind::ILong)
    } else if strutil::str_eq(s, "ulonglong") {
        Some(types::IKind::IULongLong)
    } else if strutil::str_eq(s, "slonglong") {
        Some(types::IKind::ILongLong)
    } else {
        None
    }
}

fn clone_strings(v: &Vec<String>) -> (r: Vec<String>)
    ensures
        r@ == v@,
{
    let mut r: Vec<String> = Vec::new();
    let mut i: usize = 0;
    while i < v.len()
        invariant
            0 <= i <= v@.len(),
            r@ == v@.subrange(0, i as int),
        decreases v@.len() - i,
    {
        r.push(v[i].clone());
        proof {
            assert(r@ =~= v@.subrange(0, i + 1));
        }
        i = i + 1;
    }
    proof {
        assert(v@.subrange(0, v@.len() as int) =~= v@);
    }
    r
}

/// Shapes the run configuration into resolver options and builds the
/// declaration graph from the cursors.
pub fn parse_headers<L: Logger>(
    options: &BindgenOptions,
    cursors: &Vec<cursor::Cursor>,
    logger: &mut L,
) -> (r: Result<Vec<types::Decl>, parser::ResolveError>)
    ensures
        parser::parse_result_view(r) == spec_parse_of(cursors@, *options),
{
    let clang_opts = parser::ClangParserOptions {
        builtin_names: builtin_names(),
        builtins: options.builtins,
        match_pat: clone_strings(&options.match_pat),
        emit_ast: options.emit_ast,
        fail_on_unknown_type: options.fail_on_unknown_type,
        override_enum_ty: str_to_ikind(options.override_enum_ty.as_str()),
        clang_args: clone_strings(&options.clang_args),
    };
    parser::parse(cursors, &clang_opts, logger)
}

/// The resolver stage as a function of the caller-facing options.
pub open spec fn spec_parse_of(cs: Seq<cursor::Cursor>, o: BindgenOptions) -> Result<
    Seq<types::DeclV>,
    parser::ResolveErrorV,
> {
    parser::spec_parse(
        cs,
        parser::strings_view(o.match_pat@),
        spec_builtin_names(),
        o.builtins,
        !o.fail_on_unknown_type,
        spec_str_to_ikind(o.override_enum_ty@),
    )
}

/// A failed run: resolution or generation, each with its diagnosis.
#[derive(Debug, Clone, PartialEq)]
pub enum BindgenError {
    Resolve(parser::ResolveError),
    Gen(gen::GenError),
}

#[verifier::ext_equal]
pub enum BindgenErrorV {
    Resolve(parser::ResolveErrorV),
    Gen(gen::GenErrorV),
}

pub open spec fn bindgen_error_view(e: BindgenError) -> BindgenErrorV {
    match e {
        BindgenError::Resolve(r) => BindgenErrorV::Resolve(parser::resolve_error_view(r)),
        BindgenError::Gen(g) => BindgenErrorV::Gen(gen::gen_error_view(g)),
    }
}

/// The generated bindings: target-language declarations in graph
/// order plus the module-attribute preamble.
#[derive(Debug, PartialEq)]
pub struct Bindings {
    pub items: Vec<gen::RDecl>,
    pub attributes: Vec<String>,
}

/// Ghost view of [`Bindings`].
#[verifier::ext_equal]
pub struct BindingsV {
    pub items: Seq<gen::RDeclV>,
    pub attributes: Seq<Seq<char>>,
}

pub open spec fn bindings_view(b: Bindings) -> BindingsV {
    BindingsV { items: gen::rdecls_view(b.items@), attributes: parser::strings_view(b.attributes@) }
}

pub open spec fn bindings_result_view(r: Result<Bindings, BindgenError>) -> Result<
    BindingsV,
    BindgenErrorV,
> {
    match r {
        Ok(b) => Ok(bindings_view(b)),
        Err(e) => Err(bindgen_error_view(e)),
    }
}

/// The whole pipeline: resolution, then generation, as one function
/// of the cursors and the configuration.
pub open spec fn spec_generate(cs: Seq<cursor::Cursor>, o: BindgenOptions) -> Result<
    BindingsV,
    BindgenErrorV,
> {
    match spec_parse_of(cs, o) {
        Err(e) => Err(BindgenErrorV::Resolve(e)),
        Ok(ds) => match gen::spec_gen(ds, o) {
            Err(e) => Err(BindgenErrorV::Gen(e)),
            Ok(items) => Ok(BindingsV { items, attributes: gen::spec_preamble() }),
        },
    }
}

impl Bindings {
    /// Runs the pipeline on the given cursors under the given options,
    /// reporting failures to the sink.
    pub fn generate<L: Logger>(
        options: &BindgenOptions,
        cursors: &Vec<cursor::Cursor>,
        logger: &mut L,
    ) -> (r: Result<Bindings, BindgenError>)
        ensures
            bindings_result_view(r) == spec_generate(cursors@, *options),
    {
        let decls = match parse_headers(options, cursors, logger) {
            Ok(ds) => ds,
            Err(e) => {
                return Err(BindgenError::Resolve(e));
            },
        };
        match gen::gen_mod(options, &decls) {
            Ok((items, attributes)) => Ok(Bindings { items, attributes }),
            Err(e) => {
                let msg = match &e {
                    gen::GenError::NameCollision { name } => String::from_str(
                        "duplicate declaration name ",
                    ).concat(name.as_str()),
                };
                logger.error(msg.as_str());
                Err(BindgenError::Gen(e))
            },
        }
    }

    /// Hands out the generated declaration nodes.
    pub fn into_ast(self) -> (r: Vec<gen::RDecl>)
        ensures
            gen::rdecls_view(r@) == bindings_view(self).items,
    {
        self.items
    }
}

} // verus!
