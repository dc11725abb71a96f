//! The pipeline driver: one run over one source text, sequencing the stages
//! in fixed order, gating each by its configuration flag, collecting every
//! stage's diagnostics, and rendering the output views.
use vstd::prelude::*;
use vstd::string::StringExecFns;
use vstd::string::StringSliceAdditionalSpecFns;
use vstd::utf8::encode_utf8;

use crate::comments::Comment;
use crate::comments::clone_comments;
use crate::comments::map_comments;
use crate::config::OxcOptions;
use crate::config::SourceTypeOverride;
use crate::config::codegen_whitespace;
use crate::config::lint_gate;
use crate::config::minify_stage_runs;
use crate::config::resolve;
use crate::config::spec_allow_return_outside_function;
use crate::config::spec_allow_v8_intrinsics;
use crate::config::spec_enable_sourcemap;
use crate::config::spec_filename;
use crate::config::spec_isolated_declarations;
use crate::config::spec_preserve_parens;
use crate::config::spec_run_scope;
use crate::config::spec_source_type;
use crate::config::spec_run_symbol;
use crate::config::spec_run_syntax;
use crate::config::spec_run_transform;
use crate::diag::Diag;
use crate::diag::DiagView;
use crate::diag::OxcDiagnostic;
use crate::diag::flat_views_of;
use crate::diag::flatten_all;
use crate::diag::project_diagnostics;
use crate::diag::save_diagnostics;
use crate::diag::views_of;
use crate::ext;
use crate::ext::is_definition_of;
use crate::ext::lossy_of;
use crate::ext::lossy_string;
use crate::ext::parse_errors_of;
use crate::scopes::ScopeRec;
use crate::scopes::ScopeRecV;
use crate::scopes::render_scope_text;
use crate::scopes::scope_text_bytes;
use crate::scopes::scope_views_of;
use crate::symbols::SymV;
use crate::symbols::SymbolRec;
use crate::symbols::render_symbols_json;
use crate::symbols::sym_views_of;
use crate::symbols::symbols_json_bytes;
use crate::translate::Utf16Map;

verus! {

/// Whether the configuration overrides the inferred source type to script.
pub open spec fn spec_override_script(o: OxcOptions) -> bool {
    spec_source_type(o) == SourceTypeOverride::Script
}

/// Whether the configuration overrides the inferred source type to module.
pub open spec fn spec_override_module(o: OxcOptions) -> bool {
    spec_source_type(o) == SourceTypeOverride::Module
}

/// The parser's error list for this source under this configuration.
pub open spec fn spec_parse_errors(text: Seq<char>, o: OxcOptions) -> Seq<DiagView> {
    parse_errors_of(
        text,
        spec_filename(o),
        spec_override_script(o),
        spec_override_module(o),
        spec_allow_return_outside_function(o),
        spec_preserve_parens(o),
        spec_allow_v8_intrinsics(o),
    )
}

/// Whether this configuration classifies the source as a pure
/// type-declaration file.
pub open spec fn spec_is_definition(o: OxcOptions) -> bool {
    is_definition_of(spec_filename(o), spec_override_script(o), spec_override_module(o))
}

/// The list starts with the given prefix.
pub open spec fn starts_with(ds: Seq<DiagView>, prefix: Seq<DiagView>) -> bool {
    ds.len() >= prefix.len() && ds.take(prefix.len() as int) == prefix
}

/// The text is the lossy decoding of some rendered scope tree.
pub open spec fn is_rendered_scope_text(t: Seq<char>) -> bool {
    exists|scopes: Seq<ScopeRecV>| encode_utf8(t) == lossy_of(scope_text_bytes(scopes))
}

/// The text is the lossy decoding of some rendered symbol table.
pub open spec fn is_rendered_symbols_json(t: Seq<char>) -> bool {
    exists|syms: Seq<SymV>| encode_utf8(t) == lossy_of(symbols_json_bytes(syms))
}

/// A list that starts with a prefix still does after more is appended.
proof fn lemma_starts_with_extend(a: Seq<DiagView>, b: Seq<DiagView>, p: Seq<DiagView>)
    requires
        starts_with(a, p),
    ensures
        starts_with(a + b, p),
{
    assert((a + b).take(p.len() as int) =~= a.take(p.len() as int));
}

/// The driver and the output bundle of its latest run. Every field is fully
/// reset at the start of each run; no field carries state across calls.
pub struct Oxc {
    pub ast_json: String,
    pub ir: String,
    pub control_flow_graph: String,
    pub symbols_json: String,
    pub scope_text: String,
    pub codegen_text: String,
    pub codegen_sourcemap_text: Option<String>,
    pub formatted_text: String,
    pub prettier_formatted_text: String,
    pub prettier_ir_text: String,
    pub comments: Vec<Comment>,
    pub diagnostics: Vec<Diag>,
}

impl Oxc {
    /// Every output field is empty and no diagnostic is recorded.
    pub open spec fn is_reset(&self) -> bool {
        &&& self.ast_json@.len() == 0
        &&& self.ir@.len() == 0
        &&& self.control_flow_graph@.len() == 0
        &&& self.symbols_json@.len() == 0
        &&& self.scope_text@.len() == 0
        &&& self.codegen_text@.len() == 0
        &&& self.codegen_sourcemap_text is None
        &&& self.formatted_text@.len() == 0
        &&& self.prettier_formatted_text@.len() == 0
        &&& self.prettier_ir_text@.len() == 0
        &&& self.comments@.len() == 0
        &&& self.diagnostics@.len() == 0
    }

    pub fn new() -> (d: Self)
        ensures
            d.is_reset(),
    {
        Oxc {
            ast_json: String::new(),
            ir: String::new(),
            control_flow_graph: String::new(),
            symbols_json: String::new(),
            scope_text: String::new(),
            codegen_text: String::new(),
            codegen_sourcemap_text: None,
            formatted_text: String::new(),
            prettier_formatted_text: String::new(),
            prettier_ir_text: String::new(),
            comments: Vec::new(),
            diagnostics: Vec::new(),
        }
    }

    /// The recorded diagnostics, flattened: one record per label, or one
    /// record at [0, 0] for a diagnostic without labels (no label list, or
    /// an empty one), in arrival order.
    pub fn get_diagnostics(&self) -> (r: Vec<OxcDiagnostic>)
        ensures
            flat_views_of(r@) == flatten_all(views_of(self.diagnostics@)),
    {
        project_diagnostics(&self.diagnostics)
    }

    /// The extracted comments of the latest run, in source order.
    pub fn get_comments(&self) -> (r: Vec<Comment>)
        ensures
            r@.len() == self.comments@.len(),
            forall|i: int|
                0 <= i < self.comments@.len() ==> #[trigger] r@[i]@ == self.comments@[i]@,
    {
        clone_comments(&self.comments)
    }

    /// Appends a batch of diagnostics to this run's sink.
    fn save_diagnostics(&mut self, batch: &Vec<Diag>)
        ensures
            views_of(final(self).diagnostics@) == views_of(old(self).diagnostics@) + views_of(
                batch@,
            ),
            final(self).ast_json == old(self).ast_json,
            final(self).ir == old(self).ir,
            final(self).control_flow_graph == old(self).control_flow_graph,
            final(self).symbols_json == old(self).symbols_json,
            final(self).scope_text == old(self).scope_text,
            final(self).codegen_text == old(self).codegen_text,
            final(self).codegen_sourcemap_text == old(self).codegen_sourcemap_text,
            final(self).formatted_text == old(self).formatted_text,
            final(self).prettier_formatted_text == old(self).prettier_formatted_text,
            final(self).prettier_ir_text == old(self).prettier_ir_text,
            final(self).comments == old(self).comments,
    {
        save_diagnostics(&mut self.diagnostics, batch);
    }

    /// Publishes the scope and symbol views. For a pure type-declaration
    /// source both stay empty whatever their request flags say; otherwise
    /// each is rendered exactly when requested.
    fn apply_tree_views(
        &mut self,
        is_definition: bool,
        run_scope: bool,
        run_symbol: bool,
        scopes: &Vec<ScopeRec>,
        syms: &Vec<SymbolRec>,
    )
        requires
            old(self).scope_text@.len() == 0,
            old(self).symbols_json@.len() == 0,
        ensures
            is_definition ==> final(self).scope_text@.len() == 0
                && final(self).symbols_json@.len() == 0,
            !is_definition && run_scope ==> encode_utf8(final(self).scope_text@) == lossy_of(
                scope_text_bytes(scope_views_of(scopes@)),
            ),
            !(!is_definition && run_scope) ==> final(self).scope_text@.len() == 0,
            !is_definition && run_symbol ==> encode_utf8(final(self).symbols_json@) == lossy_of(
                symbols_json_bytes(sym_views_of(syms@)),
            ),
            !(!is_definition && run_symbol) ==> final(self).symbols_json@.len() == 0,
            final(self).ast_json == old(self).ast_json,
            final(self).ir == old(self).ir,
            final(self).control_flow_graph == old(self).control_flow_graph,
            final(self).codegen_text == old(self).codegen_text,
            final(self).codegen_sourcemap_text == old(self).codegen_sourcemap_text,
            final(self).formatted_text == old(self).formatted_text,
            final(self).prettier_formatted_text == old(self).prettier_formatted_text,
            final(self).prettier_ir_text == old(self).prettier_ir_text,
            final(self).comments == old(self).comments,
            final(self).diagnostics == old(self).diagnostics,
    {
        if !is_definition {
            if run_scope {
                let bytes = render_scope_text(scopes);
                self.scope_text = lossy_string(&bytes);
            }
            if run_symbol {
                let bytes = render_symbols_json(syms);
                self.symbols_json = lossy_string(&bytes);
            }
        }
    }

    /// Resets every output field for a fresh run.
    fn reset(&mut self)
        ensures
            final(self).is_reset(),
    {
        self.ast_json = String::new();
        self.ir = String::new();
        self.control_flow_graph = String::new();
        self.symbols_json = String::new();
        self.scope_text = String::new();
        self.codegen_text = String::new();
        self.codegen_sourcemap_text = None;
        self.formatted_text = String::new();
        self.prettier_formatted_text = String::new();
        self.prettier_ir_text = String::new();
        self.comments = Vec::new();
        self.diagnostics = Vec::new();
    }

    /// One full pipeline run over `source_text` under `options`.
    ///
    /// Stages run in fixed order — parse, semantic analysis with a CFG,
    /// syntax-diagnostic recording, the lint gate, the scope and symbol
    /// views (skipped for declaration files), isolated declarations or the
    /// transformer, the minifier, code generation, the structural dump, span
    /// conversion and comment extraction — each gated by its flag. Every
    /// stage failure degrades to recorded diagnostics; the run only refuses
    /// a source text too large for 32-bit span arithmetic.
    #[verifier::rlimit(100)]
    pub fn run(&mut self, source_text: String, options: OxcOptions) -> (r: Result<(), String>)
        ensures
            r is Ok <==> encode_utf8(source_text@).len() <= 0x7FFF_FFFF,
            r is Err ==> final(self).is_reset(),
            !spec_run_scope(options) ==> final(self).scope_text@.len() == 0,
            !spec_run_symbol(options) ==> final(self).symbols_json@.len() == 0,
            r is Ok && spec_is_definition(options) ==> final(self).scope_text@.len() == 0
                && final(self).symbols_json@.len() == 0,
            r is Ok && !spec_is_definition(options) && spec_run_scope(options)
                ==> is_rendered_scope_text(final(self).scope_text@),
            r is Ok && !spec_is_definition(options) && spec_run_symbol(options)
                ==> is_rendered_symbols_json(final(self).symbols_json@),
            final(self).formatted_text@.len() == 0,
            final(self).prettier_formatted_text@.len() == 0,
            final(self).prettier_ir_text@.len() == 0,
            !spec_enable_sourcemap(options) ==> final(self).codegen_sourcemap_text is None,
            r is Ok && !(spec_run_transform(options) && spec_isolated_declarations(options))
                ==> (final(self).codegen_sourcemap_text is Some <==> spec_enable_sourcemap(options)),
            r is Ok && spec_run_transform(options) && spec_isolated_declarations(options)
                ==> final(self).ir@.len() == 0 && final(self).ast_json@.len() == 0
                && final(self).comments@.len() == 0,
            !spec_run_syntax(options) && !spec_run_transform(options)
                ==> final(self).diagnostics@.len() == 0,
            r is Ok && spec_run_syntax(options) ==> starts_with(
                views_of(final(self).diagnostics@),
                spec_parse_errors(source_text@, options),
            ),
    {
        broadcast use crate::diag::lemma_views_of_len, crate::diag::lemma_views_of_index;

        self.reset();
        let text = source_text;
        let ts: &str = text.as_str();
        proof {
            assert(ts.spec_bytes() == encode_utf8(ts@));
            assert(ts@ == text@);
        }
        let sb0: &[u8] = ts.as_bytes();
        if sb0.len() > 0x7FFF_FFFF {
            return Err(String::from_str("source text too large"));
        }
        proof {
            assert(sb0@ == ts.spec_bytes());
            assert(encode_utf8(text@).len() <= 0x7FFF_FFFF);
        }
        let cfg = resolve(&options);
        let ghost pe = spec_parse_errors(text@, options);

        let allocator = ext::new_allocator();
        let override_script: bool = match cfg.source_type {
            SourceTypeOverride::Script => true,
            SourceTypeOverride::Module => false,
            SourceTypeOverride::Unset => false,
        };
        let override_module: bool = match cfg.source_type {
            SourceTypeOverride::Script => false,
            SourceTypeOverride::Module => true,
            SourceTypeOverride::Unset => false,
        };
        proof {
            assert(override_script == spec_override_script(options));
            assert(override_module == spec_override_module(options));
        }
        let (mut program, parse_errors, is_definition) = ext::parse_source(
            &allocator,
            text.as_str(),
            cfg.source_filename.as_str(),
            override_script,
            override_module,
            cfg.allow_return_outside_function,
            cfg.preserve_parens,
            cfg.allow_v8_intrinsics,
        );
        proof {
            assert(views_of(parse_errors@) == pe);
            assert(is_definition == spec_is_definition(options));
        }
        let (semantic, semantic_errors) = ext::build_semantic(&program);

        self.control_flow_graph = ext::cfg_dot(&semantic, cfg.cfg_verbose);

        if cfg.run_syntax {
            proof {
                assert(views_of(self.diagnostics@) =~= Seq::<DiagView>::empty());
            }
            self.save_diagnostics(&parse_errors);
            proof {
                assert(views_of(self.diagnostics@) =~= pe);
            }
            self.save_diagnostics(&semantic_errors);
            proof {
                assert(views_of(self.diagnostics@).take(pe.len() as int) =~= pe);
            }
        }
        proof {
            if cfg.run_syntax {
                assert(starts_with(views_of(self.diagnostics@), pe));
            }
        }

        // The lint gate: lint may only run when requested and the sink is
        // still empty (see `config::lint_gate`). There are no lint rules
        // here, so an open gate contributes no diagnostics and the sink is
        // left as it is.
        let lint_open = lint_gate(cfg.run_lint, &self.diagnostics);
        proof {
            assert(lint_open == crate::config::spec_lint_gate(
                cfg.run_lint,
                self.diagnostics@.len() as nat,
            ));
        }

        // The format stage — an independent pretty-printer over a fresh
        // parse — is not part of this library; its output fields stay
        // empty.

        let scopes: Vec<ScopeRec> = if !is_definition && cfg.run_scope {
            ext::extract_scopes(&semantic)
        } else {
            Vec::new()
        };
        let syms: Vec<SymbolRec> = if !is_definition && cfg.run_symbol {
            ext::extract_symbols(&semantic)
        } else {
            Vec::new()
        };
        self.apply_tree_views(is_definition, cfg.run_scope, cfg.run_symbol, &scopes, &syms);
        proof {
            if !is_definition && cfg.run_scope {
                assert(is_rendered_scope_text(self.scope_text@));
            }
            if !is_definition && cfg.run_symbol {
                assert(is_rendered_symbols_json(self.symbols_json@));
            }
        }

        let scoping = ext::semantic_into_scoping(semantic);

        if cfg.run_transform {
            if cfg.isolated_declarations {
                proof {
                    assert(!minify_stage_runs(options));
                    assert(codegen_whitespace(options) == false);
                }
                let (decl_program, decl_errors) = ext::isolated_declarations(
                    &allocator,
                    &program,
                );
                let ghost before = views_of(self.diagnostics@);
                if decl_errors.len() == 0 {
                    let smpath: Option<&str> = if cfg.enable_sourcemap {
                        Some(cfg.source_filename.as_str())
                    } else {
                        None
                    };
                    let (code, map) = ext::codegen(&decl_program, None, false, smpath);
                    self.codegen_text = code;
                    self.codegen_sourcemap_text = map;
                } else {
                    self.save_diagnostics(&decl_errors);
                    proof {
                        if cfg.run_syntax {
                            lemma_starts_with_extend(before, views_of(decl_errors@), pe);
                        }
                    }
                    self.codegen_text = String::new();
                    self.codegen_sourcemap_text = None;
                }
                return Ok(());
            }
            let ghost before_target = views_of(self.diagnostics@);
            let topts = match &cfg.transform_target {
                Some(target) => {
                    match ext::transform_options_from_target(target.as_str()) {
                        Ok(o) => o,
                        Err(e) => {
                            let bad_target = Diag {
                                severity: String::from_str("Error"),
                                message: e,
                                labels: None,
                            };
                            let ghost bv = bad_target@;
                            self.diagnostics.push(bad_target);
                            proof {
                                assert(views_of(self.diagnostics@) =~= before_target + seq![bv]);
                                if cfg.run_syntax {
                                    lemma_starts_with_extend(before_target, seq![bv], pe);
                                }
                            }
                            ext::default_transform_options()
                        },
                    }
                },
                None => ext::default_transform_options(),
            };
            let transform_errors = ext::transform(
                &allocator,
                cfg.source_filename.as_str(),
                &topts,
                scoping,
                &mut program,
            );
            if transform_errors.len() > 0 {
                let ghost before_terrs = views_of(self.diagnostics@);
                self.save_diagnostics(&transform_errors);
                proof {
                    if cfg.run_syntax {
                        lemma_starts_with_extend(before_terrs, views_of(transform_errors@), pe);
                    }
                }
            }
        }

        let replacement = if cfg.minify_mangle || cfg.minify_compress {
            let dc = cfg.minify_compress && cfg.drop_console;
            let dd = cfg.minify_compress && cfg.drop_debugger;
            ext::minify(&allocator, &mut program, cfg.minify_mangle, dc, dd)
        } else {
            None
        };

        let smpath: Option<&str> = if cfg.enable_sourcemap {
            Some(cfg.source_filename.as_str())
        } else {
            None
        };
        let (code, map) = ext::codegen(&program, replacement, cfg.minify_whitespace, smpath);
        self.codegen_text = code;
        self.codegen_sourcemap_text = map;
        self.ir = ext::ir_dump(&program);

        let raw_comments = ext::extract_comments(&program);
        ext::convert_program_spans(&mut program);
        self.ast_json = ext::ast_json(&program);

        let sb = text.as_str().as_bytes();
        proof {
            assert(sb@ == encode_utf8(text@));
        }
        let tmap = Utf16Map::build(sb);
        self.comments = map_comments(sb, &raw_comments, &tmap);

        Ok(())
    }
}

} // verus!
