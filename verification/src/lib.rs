//! Conversion between text and eleven EBCDIC codepages, for editors and for data files.
//!
//! [`convert`] holds the conversions and [`tables`] the codepages. [`rdw`] takes variable-length
//! mainframe records apart. [`cli`] is the `convert` command without its files, [`lsp`] the
//! language server without its wire, with [`document`] for buffers and positions and [`config`]
//! for settings. [`extension`] is what an editor extension decides when it launches the server.

pub mod cli;
pub mod codepage;
pub mod config;
pub mod convert;
pub mod document;
pub mod extension;
pub mod json;
pub mod lsp;
pub mod rdw;
pub mod tables;
pub mod text;
