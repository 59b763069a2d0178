//! lsp-det: a transparent proxy between an LSP client and a language server that provides the
//! server state protocol to both sides.

pub mod text;
pub mod json;
pub mod state;
pub mod peek;
pub mod decimal;
pub mod framing;
pub mod cli;
pub mod uri;
pub mod gate;
pub mod adapter;
pub mod initialize;
pub mod text_map;
pub mod tracker;
pub mod documents;
pub mod watched_files;
pub mod proxy;
