//! Zeta: a compiler from an extended Markdown dialect to the Markdown
//! dialects of two publishing platforms, Zenn and Qiita.
//!
//! The pipeline has three stages. The scanner turns characters into a flat
//! stream of tokens, the parser turns tokens into a tree of elements, and one
//! compiler per platform renders the tree as text. Every stage is specified
//! by a mathematical model over sequences of characters, and the executable
//! code is verified against that model.
//!
//! YAML is read and written by `serde_yaml`. What it hands over is modelled
//! as a plain tree, and the rules on front matter and macros are verified
//! over that tree.

pub mod text;
pub mod yaml;
pub mod macros;
pub mod token;
pub mod ast;
pub mod frontmatter;
pub mod scan_model;
pub mod scanner;
pub mod parse_model;
pub mod parser;
pub mod compile_model;
pub mod compiler;
pub mod document;
pub mod print;
pub mod laws;
