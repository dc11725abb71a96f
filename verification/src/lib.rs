//! An inspection and transformation front end over the oxc toolchain: one
//! call runs the parser, semantic analyzer, transformer, minifier and code
//! generator over a single source text, gated by a declarative
//! configuration, and returns rendered views (scope tree, symbol table,
//! AST, control-flow graph, generated code) plus a unified diagnostics
//! list. The sequencing and gating of stages, the diagnostics aggregation
//! and flattening, the byte-offset to UTF-16 translation, and the view
//! renderers are verified; the oxc calls stand behind trusted wrappers.
//!
//! Two pipeline stages are not part of this crate: the lint stage (its
//! gate — lint only on a clean sink — is still computed and verified, but
//! no rules run, so it never contributes a diagnostic) and the format
//! stage (its output fields always stay empty). The module-reference
//! summary, consumed only by the lint stage, is likewise absent.
pub mod comments;
pub mod config;
pub mod diag;
pub mod driver;
pub mod ext;
pub mod scopes;
pub mod symbols;
pub mod text;
pub mod translate;
