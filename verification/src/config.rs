//! The declarative run configuration: optional option groups as the caller
//! hands them in, and their resolution into one canonical record with
//! explicit defaults, done once at run start.
use vstd::prelude::*;
use vstd::string::StringExecFns;

verus! {

/// Which stages to run.
pub struct OxcRunOptions {
    pub syntax: Option<bool>,
    pub lint: Option<bool>,
    pub scope: Option<bool>,
    pub symbol: Option<bool>,
    pub transform: Option<bool>,
    pub prettier_format: Option<bool>,
    pub prettier_ir: Option<bool>,
}

/// Parser stage options.
pub struct OxcParserOptions {
    pub source_filename: Option<String>,
    pub source_type: Option<SourceTypeOverride>,
    pub allow_return_outside_function: Option<bool>,
    pub preserve_parens: Option<bool>,
    pub allow_v8_intrinsics: Option<bool>,
}

/// An explicit override of the inferred source type.
#[derive(Clone, Copy, PartialEq, Eq, Structural, Debug)]
pub enum SourceTypeOverride {
    Unset,
    Script,
    Module,
}

/// Linter stage options. The stage has no options of its own.
pub struct OxcLinterOptions {}

/// Transformer stage options.
pub struct OxcTransformerOptions {
    pub target: Option<String>,
    pub isolated_declarations: Option<bool>,
}

/// Code generation options.
pub struct OxcCodegenOptions {
    pub enable_sourcemap: Option<bool>,
}

/// Compression sub-options of the minifier.
pub struct OxcCompressOptions {
    pub drop_console: bool,
    pub drop_debugger: bool,
}

/// Minifier stage options.
pub struct OxcMinifierOptions {
    pub mangle: Option<bool>,
    pub compress: Option<bool>,
    pub whitespace: Option<bool>,
    pub compress_options: Option<OxcCompressOptions>,
}

/// Control-flow-graph view options.
pub struct OxcControlFlowOptions {
    pub verbose: Option<bool>,
}

/// The whole configuration: every group optional.
pub struct OxcOptions {
    pub run: Option<OxcRunOptions>,
    pub parser: Option<OxcParserOptions>,
    pub linter: Option<OxcLinterOptions>,
    pub transformer: Option<OxcTransformerOptions>,
    pub codegen: Option<OxcCodegenOptions>,
    pub minifier: Option<OxcMinifierOptions>,
    pub control_flow: Option<OxcControlFlowOptions>,
}

/// The canonical configuration, every option resolved to its default when
/// absent.
pub struct ResolvedOptions {
    pub source_filename: String,
    pub source_type: SourceTypeOverride,
    pub allow_return_outside_function: bool,
    pub preserve_parens: bool,
    pub allow_v8_intrinsics: bool,
    pub run_syntax: bool,
    pub run_lint: bool,
    pub run_scope: bool,
    pub run_symbol: bool,
    pub run_transform: bool,
    pub prettier_format: bool,
    pub prettier_ir: bool,
    pub transform_target: Option<String>,
    pub isolated_declarations: bool,
    pub enable_sourcemap: bool,
    pub minify_mangle: bool,
    pub minify_compress: bool,
    pub minify_whitespace: bool,
    pub drop_console: bool,
    pub drop_debugger: bool,
    pub cfg_verbose: bool,
}

/// An optional boolean, defaulted.
pub open spec fn opt_or(o: Option<bool>, d: bool) -> bool {
    match o {
        Option::Some(b) => b,
        Option::None => d,
    }
}

pub open spec fn spec_run_syntax(o: OxcOptions) -> bool {
    match o.run {
        Option::Some(g) => opt_or(g.syntax, false),
        Option::None => false,
    }
}

pub open spec fn spec_run_lint(o: OxcOptions) -> bool {
    match o.run {
        Option::Some(g) => opt_or(g.lint, false),
        Option::None => false,
    }
}

pub open spec fn spec_run_scope(o: OxcOptions) -> bool {
    match o.run {
        Option::Some(g) => opt_or(g.scope, false),
        Option::None => false,
    }
}

pub open spec fn spec_run_symbol(o: OxcOptions) -> bool {
    match o.run {
        Option::Some(g) => opt_or(g.symbol, false),
        Option::None => false,
    }
}

pub open spec fn spec_run_transform(o: OxcOptions) -> bool {
    match o.run {
        Option::Some(g) => opt_or(g.transform, false),
        Option::None => false,
    }
}

pub open spec fn spec_isolated_declarations(o: OxcOptions) -> bool {
    match o.transformer {
        Option::Some(g) => opt_or(g.isolated_declarations, false),
        Option::None => false,
    }
}

pub open spec fn spec_enable_sourcemap(o: OxcOptions) -> bool {
    match o.codegen {
        Option::Some(g) => opt_or(g.enable_sourcemap, false),
        Option::None => false,
    }
}

pub open spec fn spec_minify_mangle(o: OxcOptions) -> bool {
    match o.minifier {
        Option::Some(g) => opt_or(g.mangle, false),
        Option::None => false,
    }
}

pub open spec fn spec_minify_compress(o: OxcOptions) -> bool {
    match o.minifier {
        Option::Some(g) => opt_or(g.compress, false),
        Option::None => false,
    }
}

pub open spec fn spec_minify_whitespace(o: OxcOptions) -> bool {
    match o.minifier {
        Option::Some(g) => opt_or(g.whitespace, false),
        Option::None => false,
    }
}

pub open spec fn spec_prettier_format(o: OxcOptions) -> bool {
    match o.run {
        Option::Some(g) => opt_or(g.prettier_format, false),
        Option::None => false,
    }
}

pub open spec fn spec_prettier_ir(o: OxcOptions) -> bool {
    match o.run {
        Option::Some(g) => opt_or(g.prettier_ir, false),
        Option::None => false,
    }
}

pub open spec fn spec_source_type(o: OxcOptions) -> SourceTypeOverride {
    match o.parser {
        Option::Some(p) => match p.source_type {
            Option::Some(t) => t,
            Option::None => SourceTypeOverride::Unset,
        },
        Option::None => SourceTypeOverride::Unset,
    }
}

pub open spec fn spec_allow_return_outside_function(o: OxcOptions) -> bool {
    match o.parser {
        Option::Some(p) => opt_or(p.allow_return_outside_function, false),
        Option::None => false,
    }
}

pub open spec fn spec_preserve_parens(o: OxcOptions) -> bool {
    match o.parser {
        Option::Some(p) => opt_or(p.preserve_parens, true),
        Option::None => true,
    }
}

pub open spec fn spec_allow_v8_intrinsics(o: OxcOptions) -> bool {
    match o.parser {
        Option::Some(p) => opt_or(p.allow_v8_intrinsics, false),
        Option::None => false,
    }
}

pub open spec fn spec_transform_target(o: OxcOptions) -> Option<Seq<char>> {
    match o.transformer {
        Option::Some(t) => match t.target {
            Option::Some(s) => Option::Some(s@),
            Option::None => Option::<Seq<char>>::None,
        },
        Option::None => Option::<Seq<char>>::None,
    }
}

pub open spec fn spec_drop_console(o: OxcOptions) -> bool {
    match o.minifier {
        Option::Some(m) => match m.compress_options {
            Option::Some(c) => c.drop_console,
            Option::None => false,
        },
        Option::None => false,
    }
}

pub open spec fn spec_drop_debugger(o: OxcOptions) -> bool {
    match o.minifier {
        Option::Some(m) => match m.compress_options {
            Option::Some(c) => c.drop_debugger,
            Option::None => false,
        },
        Option::None => false,
    }
}

pub open spec fn spec_cfg_verbose(o: OxcOptions) -> bool {
    match o.control_flow {
        Option::Some(c) => opt_or(c.verbose, false),
        Option::None => false,
    }
}

pub open spec fn spec_filename(o: OxcOptions) -> Seq<char> {
    match o.parser {
        Option::Some(p) => match p.source_filename {
            Option::Some(f) => f@,
            Option::None => ("test.tsx")@,
        },
        Option::None => ("test.tsx")@,
    }
}

/// Whether the minify stage runs at all for this configuration: never in
/// isolated-declarations mode, else when mangling or compression is asked.
pub open spec fn minify_stage_runs(o: OxcOptions) -> bool {
    &&& !(spec_run_transform(o) && spec_isolated_declarations(o))
    &&& (spec_minify_mangle(o) || spec_minify_compress(o))
}

/// The whitespace flag code generation receives: never set in
/// isolated-declarations mode, else as configured.
pub open spec fn codegen_whitespace(o: OxcOptions) -> bool {
    if spec_run_transform(o) && spec_isolated_declarations(o) {
        false
    } else {
        spec_minify_whitespace(o)
    }
}

/// In isolated-declarations mode the minify stage never runs and code
/// generation never minifies whitespace, whatever the minifier options say.
pub proof fn lemma_isolated_short_circuit(o: OxcOptions)
    requires
        spec_run_transform(o),
        spec_isolated_declarations(o),
    ensures
        !minify_stage_runs(o),
        codegen_whitespace(o) == false,
{
}

/// The lint gate: lint runs only when requested and no diagnostic has been
/// recorded yet.
pub open spec fn spec_lint_gate(run_lint: bool, sink_len: nat) -> bool {
    run_lint && sink_len == 0
}

/// Decides whether the lint stage may run, from the configuration and the
/// diagnostics collected so far.
pub fn lint_gate(run_lint: bool, sink: &Vec<crate::diag::Diag>) -> (b: bool)
    ensures
        b == spec_lint_gate(run_lint, sink@.len()),
{
    run_lint && sink.len() == 0
}

/// Resolves the configuration to its canonical record, applying the
/// documented default for every absent option.
#[verifier::rlimit(80)]
pub fn resolve(o: &OxcOptions) -> (r: ResolvedOptions)
    ensures
        r.source_filename@ == spec_filename(*o),
        r.run_syntax == spec_run_syntax(*o),
        r.run_lint == spec_run_lint(*o),
        r.run_scope == spec_run_scope(*o),
        r.run_symbol == spec_run_symbol(*o),
        r.run_transform == spec_run_transform(*o),
        r.isolated_declarations == spec_isolated_declarations(*o),
        r.enable_sourcemap == spec_enable_sourcemap(*o),
        r.minify_mangle == spec_minify_mangle(*o),
        r.minify_compress == spec_minify_compress(*o),
        r.minify_whitespace == spec_minify_whitespace(*o),
        r.prettier_format == spec_prettier_format(*o),
        r.prettier_ir == spec_prettier_ir(*o),
        r.source_type == spec_source_type(*o),
        r.allow_return_outside_function == spec_allow_return_outside_function(*o),
        r.preserve_parens == spec_preserve_parens(*o),
        r.allow_v8_intrinsics == spec_allow_v8_intrinsics(*o),
        (match r.transform_target {
            Option::Some(t) => spec_transform_target(*o) == Option::Some(t@),
            Option::None => spec_transform_target(*o) is None,
        }),
        r.drop_console == spec_drop_console(*o),
        r.drop_debugger == spec_drop_debugger(*o),
        r.cfg_verbose == spec_cfg_verbose(*o),
{
    let source_filename: String = match &o.parser {
        Option::Some(p) => match &p.source_filename {
            Option::Some(f) => f.clone(),
            Option::None => String::from_str("test.tsx"),
        },
        Option::None => String::from_str("test.tsx"),
    };
    let source_type: SourceTypeOverride = match &o.parser {
        Option::Some(p) => match &p.source_type {
            Option::Some(t) => *t,
            Option::None => SourceTypeOverride::Unset,
        },
        Option::None => SourceTypeOverride::Unset,
    };
    let allow_return_outside_function: bool = match &o.parser {
        Option::Some(p) => p.allow_return_outside_function.unwrap_or(false),
        Option::None => false,
    };
    let preserve_parens: bool = match &o.parser {
        Option::Some(p) => p.preserve_parens.unwrap_or(true),
        Option::None => true,
    };
    let allow_v8_intrinsics: bool = match &o.parser {
        Option::Some(p) => p.allow_v8_intrinsics.unwrap_or(false),
        Option::None => false,
    };
    let run_syntax: bool = match &o.run {
        Option::Some(g) => g.syntax.unwrap_or(false),
        Option::None => false,
    };
    let run_lint: bool = match &o.run {
        Option::Some(g) => g.lint.unwrap_or(false),
        Option::None => false,
    };
    let run_scope: bool = match &o.run {
        Option::Some(g) => g.scope.unwrap_or(false),
        Option::None => false,
    };
    let run_symbol: bool = match &o.run {
        Option::Some(g) => g.symbol.unwrap_or(false),
        Option::None => false,
    };
    let run_transform: bool = match &o.run {
        Option::Some(g) => g.transform.unwrap_or(false),
        Option::None => false,
    };
    let prettier_format: bool = match &o.run {
        Option::Some(g) => g.prettier_format.unwrap_or(false),
        Option::None => false,
    };
    let prettier_ir: bool = match &o.run {
        Option::Some(g) => g.prettier_ir.unwrap_or(false),
        Option::None => false,
    };
    let transform_target: Option<String> = match &o.transformer {
        Option::Some(t) => match &t.target {
            Option::Some(s) => Option::Some(s.clone()),
            Option::None => Option::None,
        },
        Option::None => Option::None,
    };
    let isolated_declarations: bool = match &o.transformer {
        Option::Some(t) => t.isolated_declarations.unwrap_or(false),
        Option::None => false,
    };
    let enable_sourcemap: bool = match &o.codegen {
        Option::Some(c) => c.enable_sourcemap.unwrap_or(false),
        Option::None => false,
    };
    let minify_mangle: bool = match &o.minifier {
        Option::Some(m) => m.mangle.unwrap_or(false),
        Option::None => false,
    };
    let minify_compress: bool = match &o.minifier {
        Option::Some(m) => m.compress.unwrap_or(false),
        Option::None => false,
    };
    let minify_whitespace: bool = match &o.minifier {
        Option::Some(m) => m.whitespace.unwrap_or(false),
        Option::None => false,
    };
    let drop_console: bool = match &o.minifier {
        Option::Some(m) => match &m.compress_options {
            Option::Some(c) => c.drop_console,
            Option::None => false,
        },
        Option::None => false,
    };
    let drop_debugger: bool = match &o.minifier {
        Option::Some(m) => match &m.compress_options {
            Option::Some(c) => c.drop_debugger,
            Option::None => false,
        },
        Option::None => false,
    };
    let cfg_verbose: bool = match &o.control_flow {
        Option::Some(c) => c.verbose.unwrap_or(false),
        Option::None => false,
    };
    ResolvedOptions {
        source_filename,
        source_type,
        allow_return_outside_function,
        preserve_parens,
        allow_v8_intrinsics,
        run_syntax,
        run_lint,
        run_scope,
        run_symbol,
        run_transform,
        prettier_format,
        prettier_ir,
        transform_target,
        isolated_declarations,
        enable_sourcemap,
        minify_mangle,
        minify_compress,
        minify_whitespace,
        drop_console,
        drop_debugger,
        cfg_verbose,
    }
}

} // verus!
