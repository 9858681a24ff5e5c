//! The kinds of node and the fields that the extraction tells apart.

use vstd::prelude::*;
use crate::text::text_eq;

verus! {

/// The kinds of node that the extraction rules tell apart.
#[derive(Clone, Copy, Debug, PartialEq, Eq, Structural)]
pub enum NodeKind {
    Comment,
    Identifier,
    TypeIdentifier,
    StringLiteral,
    StringFragment,
    ImportStatement,
    ImportClause,
    NamespaceImport,
    NamedImports,
    ImportSpecifier,
    ExportStatement,
    ExportClause,
    ExportSpecifier,
    NamespaceExport,
    AmbientDeclaration,
    ClassDeclaration,
    AbstractClassDeclaration,
    InterfaceDeclaration,
    FunctionSignature,
    FunctionDeclaration,
    TypeAliasDeclaration,
    EnumDeclaration,
    LexicalDeclaration,
    VariableDeclarator,
    InternalModule,
    StatementBlock,
    /// The keyword `default`.
    DefaultKeyword,
    /// The keyword `declare`.
    DeclareKeyword,
    /// The token `=`.
    EqualsSign,
    /// The token `*`.
    Asterisk,
    /// Any other kind.
    Other,
}

/// The fields of a parent that the extraction rules tell apart.
#[derive(Clone, Copy, Debug, PartialEq, Eq, Structural)]
pub enum FieldName {
    /// The node fills no field of its parent.
    Unnamed,
    Name,
    Alias,
    Source,
    Value,
    Body,
    /// Any other field.
    Other,
}

/// The kind that a grammar name stands for.
pub open spec fn kind_of_name(name: Seq<char>) -> NodeKind {
    if name == "comment"@ {
        NodeKind::Comment
    } else if name == "identifier"@ {
        NodeKind::Identifier
    } else if name == "type_identifier"@ {
        NodeKind::TypeIdentifier
    } else if name == "string"@ {
        NodeKind::StringLiteral
    } else if name == "string_fragment"@ {
        NodeKind::StringFragment
    } else if name == "import_statement"@ {
        NodeKind::ImportStatement
    } else if name == "import_clause"@ {
        NodeKind::ImportClause
    } else if name == "namespace_import"@ {
        NodeKind::NamespaceImport
    } else if name == "named_imports"@ {
        NodeKind::NamedImports
    } else if name == "import_specifier"@ {
        NodeKind::ImportSpecifier
    } else if name == "export_statement"@ {
        NodeKind::ExportStatement
    } else if name == "export_clause"@ {
        NodeKind::ExportClause
    } else if name == "export_specifier"@ {
        NodeKind::ExportSpecifier
    } else if name == "namespace_export"@ {
        NodeKind::NamespaceExport
    } else if name == "ambient_declaration"@ {
        NodeKind::AmbientDeclaration
    } else if name == "class_declaration"@ {
        NodeKind::ClassDeclaration
    } else if name == "abstract_class_declaration"@ {
        NodeKind::AbstractClassDeclaration
    } else if name == "interface_declaration"@ {
        NodeKind::InterfaceDeclaration
    } else if name == "function_signature"@ {
        NodeKind::FunctionSignature
    } else if name == "function_declaration"@ {
        NodeKind::FunctionDeclaration
    } else if name == "type_alias_declaration"@ {
        NodeKind::TypeAliasDeclaration
    } else if name == "enum_declaration"@ {
        NodeKind::EnumDeclaration
    } else if name == "lexical_declaration"@ {
        NodeKind::LexicalDeclaration
    } else if name == "variable_declarator"@ {
        NodeKind::VariableDeclarator
    } else if name == "internal_module"@ {
        NodeKind::InternalModule
    } else if name == "statement_block"@ {
        NodeKind::StatementBlock
    } else if name == "default"@ {
        NodeKind::DefaultKeyword
    } else if name == "declare"@ {
        NodeKind::DeclareKeyword
    } else if name == "="@ {
        NodeKind::EqualsSign
    } else if name == "*"@ {
        NodeKind::Asterisk
    } else {
        NodeKind::Other
    }
}

/// The field that a grammar name stands for.
pub open spec fn field_of_name(name: Option<Seq<char>>) -> FieldName {
    match name {
        None => FieldName::Unnamed,
        Some(name) => if name == "name"@ {
            FieldName::Name
        } else if name == "alias"@ {
            FieldName::Alias
        } else if name == "source"@ {
            FieldName::Source
        } else if name == "value"@ {
            FieldName::Value
        } else if name == "body"@ {
            FieldName::Body
        } else {
            FieldName::Other
        },
    }
}

impl NodeKind {
    /// The kind that the grammar calls `name`.
    pub fn from_name(name: &str) -> (kind: NodeKind)
        ensures
            kind == kind_of_name(name@),
    {
        if text_eq(name, "comment") {
            NodeKind::Comment
        } else if text_eq(name, "identifier") {
            NodeKind::Identifier
        } else if text_eq(name, "type_identifier") {
            NodeKind::TypeIdentifier
        } else if text_eq(name, "string") {
            NodeKind::StringLiteral
        } else if text_eq(name, "string_fragment") {
            NodeKind::StringFragment
        } else if text_eq(name, "import_statement") {
            NodeKind::ImportStatement
        } else if text_eq(name, "import_clause") {
            NodeKind::ImportClause
        } else if text_eq(name, "namespace_import") {
            NodeKind::NamespaceImport
        } else if text_eq(name, "named_imports") {
            NodeKind::NamedImports
        } else if text_eq(name, "import_specifier") {
            NodeKind::ImportSpecifier
        } else if text_eq(name, "export_statement") {
            NodeKind::ExportStatement
        } else if text_eq(name, "export_clause") {
            NodeKind::ExportClause
        } else if text_eq(name, "export_specifier") {
            NodeKind::ExportSpecifier
        } else if text_eq(name, "namespace_export") {
            NodeKind::NamespaceExport
        } else if text_eq(name, "ambient_declaration") {
            NodeKind::AmbientDeclaration
        } else if text_eq(name, "class_declaration") {
            NodeKind::ClassDeclaration
        } else if text_eq(name, "abstract_class_declaration") {
            NodeKind::AbstractClassDeclaration
        } else if text_eq(name, "interface_declaration") {
            NodeKind::InterfaceDeclaration
        } else if text_eq(name, "function_signature") {
            NodeKind::FunctionSignature
        } else if text_eq(name, "function_declaration") {
            NodeKind::FunctionDeclaration
        } else if text_eq(name, "type_alias_declaration") {
            NodeKind::TypeAliasDeclaration
        } else if text_eq(name, "enum_declaration") {
            NodeKind::EnumDeclaration
        } else if text_eq(name, "lexical_declaration") {
            NodeKind::LexicalDeclaration
        } else if text_eq(name, "variable_declarator") {
            NodeKind::VariableDeclarator
        } else if text_eq(name, "internal_module") {
            NodeKind::InternalModule
        } else if text_eq(name, "statement_block") {
            NodeKind::StatementBlock
        } else if text_eq(name, "default") {
            NodeKind::DefaultKeyword
        } else if text_eq(name, "declare") {
            NodeKind::DeclareKeyword
        } else if text_eq(name, "=") {
            NodeKind::EqualsSign
        } else if text_eq(name, "*") {
            NodeKind::Asterisk
        } else {
            NodeKind::Other
        }
    }
}

impl FieldName {
    /// The field that the grammar calls `name`.
    pub fn from_name(name: Option<&str>) -> (field: FieldName)
        ensures
            field == field_of_name(
                match name {
                    Some(n) => Some(n@),
                    None => None,
                },
            ),
    {
        match name {
            None => FieldName::Unnamed,
            Some(name) => {
                if text_eq(name, "name") {
                    FieldName::Name
                } else if text_eq(name, "alias") {
                    FieldName::Alias
                } else if text_eq(name, "source") {
                    FieldName::Source
                } else if text_eq(name, "value") {
                    FieldName::Value
                } else if text_eq(name, "body") {
                    FieldName::Body
                } else {
                    FieldName::Other
                }
            },
        }
    }
}

} // verus!
