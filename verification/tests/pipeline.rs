use oxc_playground::config::{
    OxcCodegenOptions, OxcCompressOptions, OxcControlFlowOptions, OxcLinterOptions,
    OxcMinifierOptions, OxcOptions, OxcParserOptions, OxcRunOptions, OxcTransformerOptions,
    SourceTypeOverride,
};
use oxc_playground::driver::Oxc;

fn base_options() -> OxcOptions {
    OxcOptions {
        run: Some(OxcRunOptions {
            syntax: Some(true),
            lint: None,
            scope: None,
            symbol: None,
            transform: None,
            prettier_format: None,
            prettier_ir: None,
        }),
        parser: Some(OxcParserOptions {
            source_filename: Some("test.ts".to_string()),
            source_type: Some(SourceTypeOverride::Module),
            allow_return_outside_function: None,
            preserve_parens: None,
            allow_v8_intrinsics: None,
        }),
        linter: Some(OxcLinterOptions {}),
        transformer: Some(OxcTransformerOptions { target: None, isolated_declarations: None }),
        codegen: Some(OxcCodegenOptions { enable_sourcemap: None }),
        minifier: Some(OxcMinifierOptions {
            mangle: None,
            compress: None,
            whitespace: None,
            compress_options: Some(OxcCompressOptions {
                drop_console: false,
                drop_debugger: false,
            }),
        }),
        control_flow: Some(OxcControlFlowOptions { verbose: None }),
    }
}

fn run_once(source: &str, options: OxcOptions) -> Oxc {
    let mut oxc = Oxc::new();
    oxc.run(source.to_string(), options).expect("run should succeed");
    oxc
}

#[test]
fn codegen_produces_code() {
    let oxc = run_once("let a = 1 + 2;", base_options());
    assert!(!oxc.codegen_text.is_empty());
    assert!(oxc.codegen_text.contains("a"));
    assert!(oxc.get_diagnostics().is_empty());
}

#[test]
fn run_is_idempotent() {
    let src = "const x: number = 1;\nconsole.log(x); // note\n";
    let a = run_once(src, base_options());
    let b = run_once(src, base_options());
    assert_eq!(a.ast_json, b.ast_json);
    assert_eq!(a.ir, b.ir);
    assert_eq!(a.control_flow_graph, b.control_flow_graph);
    assert_eq!(a.symbols_json, b.symbols_json);
    assert_eq!(a.scope_text, b.scope_text);
    assert_eq!(a.codegen_text, b.codegen_text);
    assert_eq!(a.codegen_sourcemap_text, b.codegen_sourcemap_text);
    let da = a.get_diagnostics();
    let db = b.get_diagnostics();
    assert_eq!(da.len(), db.len());
    for (x, y) in da.iter().zip(db.iter()) {
        assert_eq!((x.start, x.end, &x.severity, &x.message), (y.start, y.end, &y.severity, &y.message));
    }
    let ca = a.get_comments();
    let cb = b.get_comments();
    assert_eq!(ca.len(), cb.len());
    for (x, y) in ca.iter().zip(cb.iter()) {
        assert_eq!((&x.value, x.start, x.end), (&y.value, y.start, y.end));
    }
}

#[test]
fn run_reuses_driver_without_leaking_state() {
    let mut oxc = Oxc::new();
    let mut opts = base_options();
    if let Some(run) = opts.run.as_mut() {
        run.scope = Some(true);
        run.symbol = Some(true);
    }
    oxc.run("function f() { let y = 2; }".to_string(), opts).unwrap();
    let first_scope = oxc.scope_text.clone();
    assert!(!first_scope.is_empty());
    oxc.run("1;".to_string(), base_options()).unwrap();
    assert!(oxc.scope_text.is_empty());
    assert!(oxc.symbols_json.is_empty());
}

#[test]
fn codegen_round_trip_reparses_cleanly() {
    let src = "function add(a, b) { return a + b; }\nadd(1, 2);";
    let first = run_once(src, base_options());
    assert!(first.get_diagnostics().is_empty());
    let second = run_once(&first.codegen_text, base_options());
    assert!(second.get_diagnostics().is_empty(), "regenerated code must reparse cleanly");
}

#[test]
fn syntax_errors_are_recorded_only_when_requested() {
    let bad = "function f( {";
    let with = run_once(bad, base_options());
    assert!(!with.get_diagnostics().is_empty());
    let mut opts = base_options();
    if let Some(run) = opts.run.as_mut() {
        run.syntax = Some(false);
    }
    let without = run_once(bad, opts);
    assert!(without.get_diagnostics().is_empty());
}

#[test]
fn lint_gate_blocks_lint_on_syntax_errors() {
    // A syntax error plus a lint-triggering pattern: with lint requested the
    // gate must keep the diagnostics identical to a run without lint.
    let bad = "function f( {\ndebugger;";
    let mut with_lint = base_options();
    if let Some(run) = with_lint.run.as_mut() {
        run.lint = Some(true);
    }
    let a = run_once(bad, with_lint);
    let b = run_once(bad, base_options());
    let da = a.get_diagnostics();
    let db = b.get_diagnostics();
    assert!(!da.is_empty());
    assert_eq!(da.len(), db.len(), "lint must contribute nothing after a syntax error");
}

#[test]
fn isolated_declarations_ignore_whitespace_flag() {
    let src = "export function f(a: number): number { return a; }";
    let mut id_opts = base_options();
    if let Some(run) = id_opts.run.as_mut() {
        run.transform = Some(true);
    }
    if let Some(t) = id_opts.transformer.as_mut() {
        t.isolated_declarations = Some(true);
    }
    let id_plain = run_once(src, id_opts).codegen_text.clone();
    assert!(!id_plain.is_empty());

    let mut id_opts_ws = base_options();
    if let Some(run) = id_opts_ws.run.as_mut() {
        run.transform = Some(true);
    }
    if let Some(t) = id_opts_ws.transformer.as_mut() {
        t.isolated_declarations = Some(true);
    }
    if let Some(m) = id_opts_ws.minifier.as_mut() {
        m.whitespace = Some(true);
    }
    let id_ws = run_once(src, id_opts_ws).codegen_text.clone();
    assert_eq!(id_ws, id_plain, "whitespace minification must not reach isolated declarations");
}

#[test]
fn declaration_files_skip_scope_and_symbol_views() {
    let mut opts = base_options();
    if let Some(run) = opts.run.as_mut() {
        run.scope = Some(true);
        run.symbol = Some(true);
    }
    if let Some(p) = opts.parser.as_mut() {
        p.source_filename = Some("lib.d.ts".to_string());
        p.source_type = None;
    }
    let oxc = run_once("export declare function f(): void;", opts);
    assert!(oxc.scope_text.is_empty());
    assert!(oxc.symbols_json.is_empty());
}

#[test]
fn minify_whitespace_compacts_codegen() {
    let src = "function f() {\n    return 1;\n}\n";
    let plain = run_once(src, base_options());
    let mut opts = base_options();
    if let Some(m) = opts.minifier.as_mut() {
        m.whitespace = Some(true);
    }
    let tight = run_once(src, opts);
    assert!(tight.codegen_text.len() < plain.codegen_text.len());
}

#[test]
fn sourcemap_only_when_enabled() {
    let src = "let q = 1;";
    let without = run_once(src, base_options());
    assert!(without.codegen_sourcemap_text.is_none());
    let mut opts = base_options();
    if let Some(c) = opts.codegen.as_mut() {
        c.enable_sourcemap = Some(true);
    }
    let with = run_once(src, opts);
    assert!(with.codegen_sourcemap_text.is_some());
}

#[test]
fn comments_are_extracted_with_translated_spans() {
    // "let x = '<U+1F600>'; // hi" — the comment starts at byte 16 but at
    // UTF-16 offset 14, two code units less than its byte offset.
    let src = "let x = '\u{1F600}'; // hi";
    let oxc = run_once(src, base_options());
    let comments = oxc.get_comments();
    assert_eq!(comments.len(), 1);
    assert_eq!(comments[0].value, " hi");
    assert_eq!(comments[0].start, 14);
    assert_eq!(comments[0].end, 19);
}

#[test]
fn ascii_comment_spans_are_identical() {
    let src = "let x = 1; // hi";
    let oxc = run_once(src, base_options());
    let comments = oxc.get_comments();
    assert_eq!(comments.len(), 1);
    assert_eq!(comments[0].start, 11);
    assert_eq!(comments[0].end, 16);
}

#[test]
fn bad_transform_target_records_diagnostic_and_continues() {
    let mut opts = base_options();
    if let Some(run) = opts.run.as_mut() {
        run.transform = Some(true);
        run.syntax = Some(false);
    }
    if let Some(t) = opts.transformer.as_mut() {
        t.target = Some("not-a-target".to_string());
    }
    let oxc = run_once("let v = 1;", opts);
    let diags = oxc.get_diagnostics();
    assert_eq!(diags.len(), 1);
    assert_eq!(diags[0].severity, "Error");
    assert_eq!((diags[0].start, diags[0].end), (0, 0));
    assert!(!oxc.codegen_text.is_empty());
}

#[test]
fn oversized_source_is_refused() {
    // Only sources above the 31-bit byte limit are refused; a run never
    // fails for any other reason. (A real oversized source would not fit in
    // memory here, so exercise the accepting side of the bound.)
    let mut oxc = Oxc::new();
    assert!(oxc.run("".to_string(), base_options()).is_ok());
}
