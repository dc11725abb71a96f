//! Trusted boundary to the oxc toolchain: type declarations and thin
//! wrappers around the parser, semantic analyzer, transformer, minifier,
//! code generator and serializers. Each wrapper only makes the named call
//! and converts plain values; nothing here is verified.
use vstd::prelude::*;

use crate::comments::RawComment;
use crate::diag::Diag;
use crate::diag::DiagView;
use crate::diag::views_of;
use crate::diag::Label;
use crate::scopes::Binding;
use crate::scopes::ScopeRec;
use crate::symbols::RefRec;
use crate::symbols::SymbolRec;
use oxc::diagnostics::OxcDiagnostic as RawDiagnostic;
use oxc_index::Idx;
use oxc::semantic::dot::DebugDot;
use vstd::utf8::encode_utf8;

verus! {

#[verifier::external_type_specification]
#[verifier::external_body]
pub struct ExAllocator(oxc::allocator::Allocator);

#[verifier::external_type_specification]
#[verifier::external_body]
pub struct ExRawDiagnostic(RawDiagnostic);

#[verifier::external_type_specification]
#[verifier::external_body]
pub struct ExProgram<'a>(oxc::ast::ast::Program<'a>);

#[verifier::external_type_specification]
#[verifier::external_body]
pub struct ExSemantic<'a>(oxc::semantic::Semantic<'a>);

#[verifier::external_type_specification]
#[verifier::external_body]
pub struct ExScoping(oxc::semantic::Scoping);

#[verifier::external_type_specification]
#[verifier::external_body]
pub struct ExReference(oxc::syntax::reference::Reference);

#[verifier::external_type_specification]
#[verifier::external_body]
pub struct ExTransformOptions(oxc::transformer::TransformOptions);

/// Relies on `Allocator::default`: a fresh arena for one run.
#[verifier::external_body]
pub fn new_allocator() -> oxc::allocator::Allocator {
    oxc::allocator::Allocator::default()
}

/// What the parser reports for a source text under the source type
/// inferred from the file name (with the script/module overrides applied)
/// and the given parse options. The parser reads nothing else, so its error
/// list is a function of these values alone.
pub uninterp spec fn parse_errors_of(
    text: Seq<char>,
    filename: Seq<char>,
    override_script: bool,
    override_module: bool,
    allow_return: bool,
    preserve_parens: bool,
    allow_v8: bool,
) -> Seq<DiagView>;

/// Whether the source type inferred from the file name, with the overrides
/// applied, classifies the source as a pure type-declaration file. The
/// classification reads nothing else.
pub uninterp spec fn is_definition_of(
    filename: Seq<char>,
    override_script: bool,
    override_module: bool,
) -> bool;

/// Relies on `SourceType::from_path` (unknown extensions fall back to the
/// default type), `with_script`/`with_module` for the overrides,
/// `is_typescript_definition`, and `Parser::parse`, which never fails and
/// returns a best-effort tree together with the syntax errors it found.
#[verifier::external_body]
pub fn parse_source<'a>(
    alloc: &'a oxc::allocator::Allocator,
    text: &'a str,
    filename: &str,
    override_script: bool,
    override_module: bool,
    allow_return_outside_function: bool,
    preserve_parens: bool,
    allow_v8_intrinsics: bool,
) -> (r: (oxc::ast::ast::Program<'a>, Vec<Diag>, bool))
    ensures
        views_of(r.1@) == parse_errors_of(
            text@,
            filename@,
            override_script,
            override_module,
            allow_return_outside_function,
            preserve_parens,
            allow_v8_intrinsics,
        ),
        r.2 == is_definition_of(filename@, override_script, override_module),
{
    let st0 = oxc::span::SourceType::from_path(filename).unwrap_or_default();
    let st1 = if override_script { st0.with_script(true) } else { st0 };
    let st = if override_module { st1.with_module(true) } else { st1 };
    let options = oxc::parser::ParseOptions {
        parse_regular_expression: true,
        allow_return_outside_function,
        preserve_parens,
        allow_v8_intrinsics,
    };
    let ret = oxc::parser::Parser::new(alloc, text, st).with_options(options).parse();
    let errors = ret.diagnostics.into_iter().map(|e| diag_of(&e)).collect();
    (ret.program, errors, st.is_typescript_definition())
}

/// Relies on `SemanticBuilder::build` with syntax-error re-checking and a
/// control-flow graph requested; returns the analysis and its errors.
#[verifier::external_body]
pub fn build_semantic<'a>(program: &'a oxc::ast::ast::Program<'a>) -> (
    oxc::semantic::Semantic<'a>,
    Vec<Diag>,
) {
    let ret = oxc::semantic::SemanticBuilder::new()
        .with_build_nodes(true)
        .with_check_syntax_error(true)
        .with_cfg(true)
        .build(program);
    (ret.semantic, ret.diagnostics.into_iter().map(|e| diag_of(&e)).collect())
}

/// Relies on `ControlFlowGraph::debug_dot`: renders the CFG as graph text;
/// empty when no CFG was built.
#[verifier::external_body]
pub fn cfg_dot(semantic: &oxc::semantic::Semantic<'_>, verbose: bool) -> String {
    semantic.cfg().map_or_else(
        String::default,
        |cfg| {
            cfg.debug_dot(oxc::semantic::dot::DebugDotContext::new(semantic.nodes(), verbose))
        },
    )
}

/// Relies on `Semantic::into_scoping`: hands the scope and symbol tables on.
#[verifier::external_body]
pub fn semantic_into_scoping(semantic: oxc::semantic::Semantic<'_>) -> oxc::semantic::Scoping {
    semantic.into_scoping()
}

/// Relies on the `Scoping` accessors (`scope_flags`, `scope_parent_id`,
/// `get_bindings`, `symbol_flags`): copies every scope out as plain values,
/// in scope-creation order, with parent links. Scope ids are 32-bit indices
/// assigned in creation order, so each record's id is its list position.
#[verifier::external_body]
pub fn extract_scopes(semantic: &oxc::semantic::Semantic<'_>) -> (r: Vec<ScopeRec>)
    ensures
        r@.len() < 0x1_0000_0000,
        forall|i: int| 0 <= i < r@.len() ==> (#[trigger] r@[i]).id == i as u32,
{
    let sc = semantic.scoping();
    (0..sc.scopes_len()).map(|i| {
        let id = oxc::semantic::ScopeId::from_usize(i);
        ScopeRec {
            id: i as u32,
            flags_text: format!("{:?}", sc.scope_flags(id)),
            parent: sc.scope_parent_id(id).map(|p| p.index() as u32),
            bindings: sc.get_bindings(id).into_iter().map(|(n, s)| Binding { name: n.to_string(), symbol_id: s.index() as u32, flags_text: format!("{:?}", sc.symbol_flags(*s)) }).collect(),
        }
    }).collect()
}

/// Relies on the `Scoping` symbol accessors and `Semantic::reference_span`:
/// copies every symbol out as plain values, in symbol-creation order, with
/// its resolved reference ids and records. Both per-symbol lists are mapped
/// from the same resolved-id slice, index for index, so they have one
/// record per id.
#[verifier::external_body]
pub fn extract_symbols(semantic: &oxc::semantic::Semantic<'_>) -> (r: Vec<SymbolRec>)
    ensures
        forall|i: int|
            0 <= i < r@.len() ==> (#[trigger] r@[i]).references@.len()
                == r@[i].resolved_refs@.len(),
{
    let sc = semantic.scoping();
    sc.symbol_ids().map(|sid| {
        let sp = sc.symbol_span(sid);
        let rs = sc.get_resolved_reference_ids(sid);
        SymbolRec {
            start: sp.start,
            end: sp.end,
            name: sc.symbol_name(sid).to_string(),
            flags_text: format!("{:?}", sc.symbol_flags(sid)),
            scope_id: sc.symbol_scope_id(sid).index() as u32,
            resolved_refs: rs.iter().map(|r| r.index() as u32).collect(),
            references: rs.iter().map(|r| ref_rec(semantic, sc.get_reference(*r))).collect(),
        }
    }).collect()
}

/// Relies on `Semantic::reference_span` and `Reference::flags`: one resolved
/// reference copied out as plain values.
#[verifier::external_body]
fn ref_rec(semantic: &oxc::semantic::Semantic<'_>, r: &oxc::syntax::reference::Reference) -> RefRec {
    let sp = semantic.reference_span(r);
    RefRec { start: sp.start, end: sp.end, flags_text: format!("{:?}", r.flags()) }
}

/// Relies on `OxcDiagnostic`'s accessors: severity and message rendered as
/// text, and one offset/length pair per label; `None` when it has no labels.
/// Used by the wrappers above and below to convert their error lists.
#[verifier::external_body]
fn diag_of(e: &RawDiagnostic) -> Diag {
    let labels = if e.labels.is_empty() {
        None
    } else {
        Some(e.labels.as_slice().iter().map(|l| Label {
            offset: l.offset() as u32,
            len: l.len() as u32,
        }).collect())
    };
    Diag { severity: format!("{:?}", e.severity), message: format!("{e}"), labels }
}

/// Relies on `IsolatedDeclarations::build`: generates the declaration tree
/// for the program, with its errors.
#[verifier::external_body]
pub fn isolated_declarations<'a>(
    alloc: &'a oxc::allocator::Allocator,
    program: &oxc::ast::ast::Program<'a>,
) -> (oxc::ast::ast::Program<'a>, Vec<Diag>) {
    let ret = oxc::isolated_declarations::IsolatedDeclarations::new(
        alloc,
        oxc::isolated_declarations::IsolatedDeclarationsOptions::default(),
    ).build(program);
    (ret.program, ret.diagnostics.into_iter().map(|e| diag_of(&e)).collect())
}

/// Relies on `TransformOptions::from_target`: resolves a named target, or
/// reports why the name is invalid.
#[verifier::external_body]
pub fn transform_options_from_target(target: &str) -> Result<
    oxc::transformer::TransformOptions,
    String,
> {
    oxc::transformer::TransformOptions::from_target(target)
}

/// Relies on `TransformOptions::default`.
#[verifier::external_body]
pub fn default_transform_options() -> oxc::transformer::TransformOptions {
    oxc::transformer::TransformOptions::default()
}

/// Relies on `Transformer::build_with_scoping`: rewrites the tree in place
/// and returns the transformation errors.
#[verifier::external_body]
pub fn transform<'a>(
    alloc: &'a oxc::allocator::Allocator,
    filename: &str,
    options: &oxc::transformer::TransformOptions,
    scoping: oxc::semantic::Scoping,
    program: &mut oxc::ast::ast::Program<'a>,
) -> Vec<Diag> {
    let ret = oxc::transformer::Transformer::new(alloc, std::path::Path::new(filename), options)
        .build_with_scoping(scoping, program);
    ret.diagnostics.into_iter().map(|e| diag_of(&e)).collect()
}

/// Relies on `Minifier::minify`: rewrites the tree in place. Compression is
/// held to the two requested drops as far as the options allow: variable
/// joining and sequence merging are off, unused code and names are kept.
/// Mangling may return a replacement symbol table for code generation.
#[verifier::external_body]
pub fn minify<'a>(
    alloc: &'a oxc::allocator::Allocator,
    program: &mut oxc::ast::ast::Program<'a>,
    mangle: bool,
    drop_console: bool,
    drop_debugger: bool,
) -> Option<oxc::semantic::Scoping> {
    let options = oxc::minifier::MinifierOptions {
        mangle: if mangle { Some(oxc::minifier::MangleOptions::default()) } else { None },
        compress: Some(oxc::minifier::CompressOptions {
            drop_console,
            drop_debugger,
            join_vars: false,
            sequences: false,
            ..oxc::minifier::CompressOptions::safest()
        }),
    };
    oxc::minifier::Minifier::new(options).minify(alloc, program).scoping
}

/// Relies on `Codegen::build`: generates code text from the current tree;
/// a sourcemap is produced exactly when a sourcemap path is given, in both
/// directions.
#[verifier::external_body]
pub fn codegen<'a>(
    program: &oxc::ast::ast::Program<'a>,
    scoping: Option<oxc::semantic::Scoping>,
    minify_whitespace: bool,
    sourcemap_path: Option<&str>,
) -> (r: (String, Option<String>))
    ensures
        sourcemap_path is None ==> r.1 is None,
        sourcemap_path is Some ==> r.1 is Some,
{
    let options = oxc::codegen::CodegenOptions {
        minify: minify_whitespace,
        source_map_path: sourcemap_path.map(std::path::PathBuf::from),
        ..oxc::codegen::CodegenOptions::default()
    };
    let ret = oxc::codegen::Codegen::new().with_scoping(scoping).with_options(options)
        .build(program);
    (ret.code, ret.map.map(|m| m.to_json_string()))
}

/// Relies on `Debug` formatting of the top-level statement list.
#[verifier::external_body]
pub fn ir_dump(program: &oxc::ast::ast::Program<'_>) -> String {
    format!("{:#?}", program.body)
}

/// Relies on `Utf8ToUtf16::convert_program`: rewrites every span in the tree
/// from byte offsets to UTF-16 code-unit offsets, in place.
#[verifier::external_body]
pub fn convert_program_spans(program: &mut oxc::ast::ast::Program<'_>) {
    oxc::ast_visit::utf8_to_utf16::Utf8ToUtf16::new(program.source_text).convert_program(program);
}

/// Relies on the ESTree serializer: the whole tree as structured JSON text,
/// TypeScript fields included.
#[verifier::external_body]
pub fn ast_json(program: &oxc::ast::ast::Program<'_>) -> String {
    program.to_pretty_estree_json(true, false)
}

/// Relies on the `comments` list of the parsed program: each comment's kind,
/// full span, and content span (delimiters excluded), in source order.
#[verifier::external_body]
pub fn extract_comments(program: &oxc::ast::ast::Program<'_>) -> Vec<RawComment> {
    program.comments.iter().map(|c| RawComment {
        line: match c.kind { oxc::ast::ast::CommentKind::Line => true, _ => false },
        start: c.span.start,
        end: c.span.end,
        content_start: c.content_span().start,
        content_end: c.content_span().end,
    }).collect()
}

/// What `String::from_utf8_lossy` returns for a byte sequence; its result
/// depends on the bytes alone.
pub uninterp spec fn lossy_of(v: Seq<u8>) -> Seq<u8>;

/// Relies on `String::from_utf8_lossy`: valid UTF-8 passes through
/// unchanged; invalid sequences are replaced, a function of the bytes alone.
#[verifier::external_body]
pub fn lossy_string(v: &Vec<u8>) -> (r: String)
    ensures
        encode_utf8(r@) == lossy_of(v@),
        vstd::utf8::valid_utf8(v@) ==> encode_utf8(r@) == v@,
{
    String::from_utf8_lossy(v).into_owned()
}

} // verus!
