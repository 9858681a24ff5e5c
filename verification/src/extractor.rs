//! The extractor for TypeScript.

use vstd::prelude::*;

verus! {

#[verifier::external_type_specification]
#[verifier::external_body]
pub struct ExLanguage(tree_sitter::Language);

/// Extracts the public API of TypeScript libraries.
#[derive(Debug, Clone, Copy, PartialEq, Eq)]
pub struct TypeScriptExtractor;

/// Converts `tree_sitter_typescript::LANGUAGE_TYPESCRIPT`, the grammar of
/// TypeScript, into a `tree_sitter::Language`. Nothing is claimed of the
/// language.
#[verifier::external_body]
fn typescript_language() -> tree_sitter::Language {
    tree_sitter_typescript::LANGUAGE_TYPESCRIPT.into()
}

impl TypeScriptExtractor {
    /// The grammar with which a parser reads TypeScript.
    pub fn get_parser_language(&self) -> tree_sitter::Language {
        typescript_language()
    }
}

} // verus!
