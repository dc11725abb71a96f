use oxc_playground::comments::{RawComment, map_comments};
use oxc_playground::diag::{Diag, Label, project_diagnostics};
use oxc_playground::scopes::{Binding, ScopeRec, render_scope_text};
use oxc_playground::symbols::{RefRec, SymbolRec, render_symbols_json};
use oxc_playground::config::lint_gate;
use oxc_playground::translate::Utf16Map;

#[test]
fn scope_text_renders_nested_scopes() {
    let scopes = vec![
        ScopeRec {
            id: 0,
            flags_text: "Top".to_string(),
            parent: None,
            bindings: vec![Binding {
                name: "f".to_string(),
                symbol_id: 0,
                flags_text: "Function".to_string(),
            }],
        },
        ScopeRec {
            id: 1,
            flags_text: "Function".to_string(),
            parent: Some(0),
            bindings: vec![],
        },
    ];
    let text = String::from_utf8(render_scope_text(&scopes)).unwrap();
    assert_eq!(
        text,
        "Scope 0 (Top) {\n  f (0 Function)\n  Scope 1 (Function) {\n  }\n}\n"
    );
}

#[test]
fn scope_text_balances_markers() {
    let scopes = vec![
        ScopeRec { id: 0, flags_text: "Top".to_string(), parent: None, bindings: vec![] },
        ScopeRec { id: 1, flags_text: "Block".to_string(), parent: Some(0), bindings: vec![] },
        ScopeRec { id: 2, flags_text: "Block".to_string(), parent: Some(1), bindings: vec![] },
        ScopeRec { id: 3, flags_text: "Block".to_string(), parent: Some(0), bindings: vec![] },
    ];
    let text = String::from_utf8(render_scope_text(&scopes)).unwrap();
    let opens = text.lines().filter(|l| l.trim_end().ends_with('{')).count();
    let closes = text.lines().filter(|l| l.trim() == "}").count();
    assert_eq!(opens, scopes.len());
    assert_eq!(closes, scopes.len());
    let mut depth: i64 = 0;
    for line in text.lines() {
        if line.trim() == "}" {
            depth -= 1;
            assert!(depth >= 0, "never more closing than opening markers");
        } else if line.trim_end().ends_with('{') {
            let indent = line.len() - line.trim_start().len();
            assert_eq!(indent as i64, 2 * depth, "indent follows nesting depth");
            depth += 1;
        }
    }
    assert_eq!(depth, 0);
}

#[test]
fn symbols_json_renders_exact_document() {
    let syms = vec![SymbolRec {
        start: 4,
        end: 5,
        name: "x".to_string(),
        flags_text: "Variable".to_string(),
        scope_id: 0,
        resolved_refs: vec![0, 1],
        references: vec![
            RefRec { start: 10, end: 11, flags_text: "Read".to_string() },
            RefRec { start: 14, end: 15, flags_text: "Write".to_string() },
        ],
    }];
    let text = String::from_utf8(render_symbols_json(&syms)).unwrap();
    let expected = "[{\"span\":{\"start\":4,\"end\":5},\"name\":\"x\",\"flags\":\"Variable\",\"scope_id\":0,\"resolved_references\":[0,1],\"references\":[{\"span\":{\"start\":10,\"end\":11},\"flags\":\"Read\"},{\"span\":{\"start\":14,\"end\":15},\"flags\":\"Write\"}]}]";
    assert_eq!(text, expected);
}

#[test]
fn symbols_json_is_valid_json_and_escapes_content() {
    let syms = vec![SymbolRec {
        start: 0,
        end: 1,
        name: "we\"ird\\name".to_string(),
        flags_text: "Class".to_string(),
        scope_id: 2,
        resolved_refs: vec![],
        references: vec![],
    }];
    let text = String::from_utf8(render_symbols_json(&syms)).unwrap();
    let value: serde_json::Value = serde_json::from_str(&text).expect("document must parse");
    assert_eq!(value[0]["name"], serde_json::Value::String("we\"ird\\name".to_string()));
    assert_eq!(value[0]["scope_id"], serde_json::Value::from(2u32));
}

#[test]
fn empty_symbol_table_renders_empty_array() {
    let text = String::from_utf8(render_symbols_json(&vec![])).unwrap();
    assert_eq!(text, "[]");
}

#[test]
fn diagnostic_without_labels_flattens_to_origin() {
    let diags = vec![Diag {
        severity: "Error".to_string(),
        message: "broken".to_string(),
        labels: None,
    }];
    let flat = project_diagnostics(&diags);
    assert_eq!(flat.len(), 1);
    assert_eq!((flat[0].start, flat[0].end), (0, 0));
    assert_eq!(flat[0].severity, "Error");
    assert_eq!(flat[0].message, "broken");
}

#[test]
fn diagnostic_with_labels_flattens_one_record_per_label() {
    let diags = vec![
        Diag {
            severity: "Warning".to_string(),
            message: "two places".to_string(),
            labels: Some(vec![
                Label { offset: 3, len: 2 },
                Label { offset: 10, len: 4 },
            ]),
        },
        Diag {
            severity: "Error".to_string(),
            message: "after".to_string(),
            labels: None,
        },
    ];
    let flat = project_diagnostics(&diags);
    assert_eq!(flat.len(), 3);
    assert_eq!((flat[0].start, flat[0].end), (3, 5));
    assert_eq!((flat[1].start, flat[1].end), (10, 14));
    assert_eq!(flat[0].severity, "Warning");
    assert_eq!(flat[1].message, "two places");
    assert_eq!((flat[2].start, flat[2].end), (0, 0));
    assert_eq!(flat[2].severity, "Error");
}

#[test]
fn diagnostic_with_empty_label_list_flattens_to_origin() {
    let diags = vec![Diag {
        severity: "Error".to_string(),
        message: "m".to_string(),
        labels: Some(vec![]),
    }];
    let flat = project_diagnostics(&diags);
    assert_eq!(flat.len(), 1);
    assert_eq!((flat[0].start, flat[0].end), (0, 0));
    assert_eq!(flat[0].severity, "Error");
    assert_eq!(flat[0].message, "m");
}

#[test]
fn lint_gate_opens_only_on_a_clean_sink() {
    let empty: Vec<Diag> = vec![];
    let full = vec![Diag {
        severity: "Error".to_string(),
        message: "m".to_string(),
        labels: None,
    }];
    assert!(lint_gate(true, &empty));
    assert!(!lint_gate(true, &full));
    assert!(!lint_gate(false, &empty));
    assert!(!lint_gate(false, &full));
}

#[test]
fn translation_is_identity_for_ascii() {
    let src = b"let x = 1; // ok";
    let map = Utf16Map::build(src);
    let raws = vec![RawComment { line: true, start: 11, end: 16, content_start: 13, content_end: 16 }];
    let out = map_comments(src, &raws, &map);
    assert_eq!(out.len(), 1);
    assert_eq!((out[0].start, out[0].end), (11, 16));
    assert_eq!(out[0].value, " ok");
}

#[test]
fn translation_shifts_after_supplementary_character() {
    // A single four-byte character before the span: every later offset is
    // two code units behind its byte value.
    let src = "a\u{1F600}b cd".as_bytes();
    let map = Utf16Map::build(src);
    let raws = vec![RawComment { line: false, start: 7, end: 9, content_start: 7, content_end: 9 }];
    let out = map_comments(src, &raws, &map);
    assert_eq!((out[0].start, out[0].end), (5, 7));
    assert_eq!(out[0].value, "cd");
}

#[test]
fn out_of_range_comment_spans_are_clamped() {
    let src = b"ab";
    let map = Utf16Map::build(src);
    let raws = vec![RawComment { line: true, start: 0, end: 9, content_start: 5, content_end: 9 }];
    let out = map_comments(src, &raws, &map);
    assert_eq!(out[0].value, "");
    assert_eq!((out[0].start, out[0].end), (0, 2));
}
