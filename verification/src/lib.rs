//! A small static-site pipeline: path resolution, file classification,
//! metadata namespaces and an ordered chain of content transformers.
//!
//! Paths are handled by the standard library's path functions, patterns by
//! `glob`, metadata by `toml`, Markdown by `roxy_markdown_parser` and
//! templates by `tera`; what is assumed of them stands in `bindings`.

pub mod bindings;
pub mod chain;
pub mod context;
pub mod discovery;
pub mod error;
pub mod file_path;
pub mod namespace;
pub mod nesting;
pub mod pipeline;
pub mod template;
pub mod text;
