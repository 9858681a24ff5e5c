//! Extraction of the declared public API of TypeScript declaration files.
//!
//! A source file is parsed into a [`tree::SyntaxTree`], a plain model of its
//! syntax tree, from the records of the nodes that the parser built
//! ([`reader`], [`records`]). Every rule of the extraction is a function on
//! that model and is stated as a specification over it:
//!
//! - [`parsing`] extracts a [`module::Module`] from a file: its doc comment
//!   ([`jsdoc`]), its imports ([`imports`]), declarations ([`declarations`]),
//!   namespaces and exports ([`export_statements`], [`exports`]), and the name
//!   of its default export ([`default_export`]);
//! - [`module_set`] gathers the modules that can be reached from the entry
//!   points of a library, with [`resolution`] for the files that relative
//!   imports stand for;
//! - [`api`] gathers the exported declarations of one file into namespaces;
//! - [`metadata`] and [`dependencies`] read what a package manifest and the
//!   directories around a package say;
//! - [`theorems`] states what holds of every extraction.
//!
//! Nothing here reads a file: the texts of files and the answers of the file
//! system are handed in by the caller.

pub mod aliases;
pub mod api;
pub mod declarations;
pub mod default_export;
pub mod dependencies;
pub mod error;
pub mod export_statements;
pub mod exports;
pub mod extractor;
pub mod imports;
pub mod jsdoc;
pub mod kinds;
pub mod metadata;
pub mod module;
pub mod module_set;
pub mod parsing;
pub mod paths;
pub mod reader;
pub mod records;
pub mod resolution;
pub mod scope;
pub mod text;
pub mod theorems;
pub mod tree;
