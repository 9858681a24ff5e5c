use daipendency_extractor_typescript::api::{
    get_declaration_name, process_node, public_api_from_tree, Namespace,
};
use daipendency_extractor_typescript::error::ExtractionError;
use daipendency_extractor_typescript::extractor::TypeScriptExtractor;
use daipendency_extractor_typescript::module::{TypeScriptSymbol, Symbol};
use daipendency_extractor_typescript::declarations::extract_symbols;
use daipendency_extractor_typescript::jsdoc::{get_jsdoc, is_module_jsdoc};
use daipendency_extractor_typescript::parsing::module_from_tree;
use daipendency_extractor_typescript::scope::has_namespace_ancestor;
use daipendency_extractor_typescript::reader::{parse_tree, parse_unchecked};
use daipendency_extractor_typescript::text::{contains, is_range, slice, starts_with, text_eq};
use daipendency_extractor_typescript::kinds::{FieldName, NodeKind};
use daipendency_extractor_typescript::tree::{SyntaxNode, SyntaxTree};
use tree_sitter::Parser;

fn make_parser() -> Parser {
    let mut parser = Parser::new();
    let language = TypeScriptExtractor.get_parser_language();
    parser.set_language(&language).unwrap();
    parser
}

fn node(kind: NodeKind, field: FieldName, parent: usize, start: usize, end: usize) -> SyntaxNode {
    let named = !matches!(
        kind,
        NodeKind::DefaultKeyword | NodeKind::DeclareKeyword | NodeKind::EqualsSign | NodeKind::Asterisk
    );
    SyntaxNode { kind, named, field, parent, start, end }
}

/// The tree of `/** d */ export interface A {}`, written by hand.
fn interface_tree() -> SyntaxTree {
    let text = "/** d */ export interface A {}".to_string();
    let nodes = vec![
        node(NodeKind::Other, FieldName::Unnamed, 0, 0, 30),
        node(NodeKind::Comment, FieldName::Unnamed, 0, 0, 8),
        node(NodeKind::ExportStatement, FieldName::Unnamed, 0, 9, 30),
        node(NodeKind::InterfaceDeclaration, FieldName::Other, 2, 16, 30),
        node(NodeKind::TypeIdentifier, FieldName::Name, 3, 26, 27),
        node(NodeKind::Other, FieldName::Body, 3, 28, 30),
    ];
    SyntaxTree::new(text, nodes).unwrap()
}

#[test]
fn texts_are_compared_and_searched_by_their_bytes() {
    assert!(text_eq("", ""));
    assert!(text_eq("héllo", "héllo"));
    assert!(!text_eq("héllo", "hello"));
    assert!(!text_eq("a", "ab"));
    assert!(starts_with("/** doc */", "/**"));
    assert!(!starts_with("/* doc */", "/**"));
    assert!(!starts_with("/*", "/**"));
    assert!(starts_with("abc", ""));
    assert!(contains("a @module b", "@module"));
    assert!(contains("@module", "@module"));
    assert!(contains("ends with @file", "@file"));
    assert!(!contains("@modul", "@module"));
    assert!(contains("", ""));
    assert!(!contains("", "a"));
}

#[test]
fn slices_begin_and_end_between_characters() {
    let text = "aé✓b";
    assert_eq!(text.len(), 7);
    assert!(is_range(text, 0, 7));
    assert!(is_range(text, 1, 3));
    assert!(is_range(text, 3, 3));
    assert!(!is_range(text, 2, 3));
    assert!(!is_range(text, 3, 5));
    assert!(!is_range(text, 3, 1));
    assert!(!is_range(text, 0, 8));
    assert_eq!(slice(text, 1, 3), "é");
    assert_eq!(slice(text, 3, 6), "✓");
    assert_eq!(slice(text, 0, 7), text);
    assert_eq!(slice(text, 7, 7), "");
}

#[test]
fn module_tags_are_found_anywhere_in_the_comment() {
    assert!(is_module_jsdoc("/** @file x */"));
    assert!(is_module_jsdoc("/** @fileoverview x */"));
    assert!(is_module_jsdoc("/** text @module x */"));
    assert!(is_module_jsdoc("@filename"));
    assert!(!is_module_jsdoc("/** @param file */"));
    assert!(!is_module_jsdoc(""));
}

#[test]
fn names_of_the_grammar_are_told_apart() {
    assert_eq!(NodeKind::from_name("comment"), NodeKind::Comment);
    assert_eq!(NodeKind::from_name("internal_module"), NodeKind::InternalModule);
    assert_eq!(NodeKind::from_name("string"), NodeKind::StringLiteral);
    assert_eq!(NodeKind::from_name("*"), NodeKind::Asterisk);
    assert_eq!(NodeKind::from_name("="), NodeKind::EqualsSign);
    assert_eq!(NodeKind::from_name("default"), NodeKind::DefaultKeyword);
    assert_eq!(NodeKind::from_name("declare"), NodeKind::DeclareKeyword);
    assert_eq!(NodeKind::from_name("program"), NodeKind::Other);
    assert_eq!(NodeKind::from_name("Comment"), NodeKind::Other);
    assert_eq!(FieldName::from_name(None), FieldName::Unnamed);
    assert_eq!(FieldName::from_name(Some("name")), FieldName::Name);
    assert_eq!(FieldName::from_name(Some("alias")), FieldName::Alias);
    assert_eq!(FieldName::from_name(Some("source")), FieldName::Source);
    assert_eq!(FieldName::from_name(Some("value")), FieldName::Value);
    assert_eq!(FieldName::from_name(Some("body")), FieldName::Body);
    assert_eq!(FieldName::from_name(Some("type")), FieldName::Other);
}

#[test]
fn nodes_must_form_a_tree_over_the_text() {
    let root = node(NodeKind::Other, FieldName::Unnamed, 0, 0, 3);
    let child = node(NodeKind::Identifier, FieldName::Unnamed, 0, 1, 2);

    assert!(SyntaxTree::new("abc".to_string(), vec![root, child]).is_some());
    assert!(SyntaxTree::new("abc".to_string(), vec![]).is_none());
    assert!(SyntaxTree::new("abc".to_string(), vec![SyntaxNode { parent: 1, ..root }, child]).is_none());
    assert!(SyntaxTree::new("abc".to_string(), vec![root, SyntaxNode { parent: 1, ..child }]).is_none());
    assert!(SyntaxTree::new("abc".to_string(), vec![root, SyntaxNode { parent: 2, ..child }]).is_none());
    assert!(SyntaxTree::new("abc".to_string(), vec![root, SyntaxNode { end: 4, ..child }]).is_none());
    assert!(SyntaxTree::new("abc".to_string(), vec![root, SyntaxNode { start: 3, end: 2, ..child }]).is_none());
    assert!(SyntaxTree::new("abc".to_string(), vec![SyntaxNode { start: 2, ..root }, child]).is_none());
    assert!(SyntaxTree::new("aéc".to_string(), vec![root, SyntaxNode { start: 2, end: 3, ..child }]).is_none());
}

#[test]
fn relations_between_nodes_follow_the_parents() {
    let tree = interface_tree();

    assert_eq!(tree.len(), 6);
    assert_eq!(tree.text(), "/** d */ export interface A {}");
    assert_eq!(tree.node(4).kind, NodeKind::TypeIdentifier);
    assert_eq!(tree.node_text(4), "A");
    assert_eq!(tree.node_text(1), "/** d */");
    assert_eq!(tree.children(0), vec![1, 2]);
    assert_eq!(tree.children(3), vec![4, 5]);
    assert_eq!(tree.children(5), Vec::<usize>::new());
    assert_eq!(tree.first_child(0), Some(1));
    assert_eq!(tree.first_child(4), None);
    assert_eq!(tree.child_from(3, 5), Some(5));
    assert_eq!(tree.prev_sibling(2), Some(1));
    assert_eq!(tree.prev_sibling(1), None);
    assert_eq!(tree.prev_sibling(0), None);
    assert_eq!(tree.prev_sibling(5), Some(4));
    assert_eq!(tree.next_named_sibling(1), Some(2));
    assert_eq!(tree.next_named_sibling(2), None);
    assert_eq!(tree.next_named_sibling(0), None);
    assert_eq!(tree.find_child(3, NodeKind::TypeIdentifier, Some(FieldName::Name)), Some(4));
    assert_eq!(tree.find_child(3, NodeKind::TypeIdentifier, Some(FieldName::Body)), None);
    assert_eq!(tree.find_child(3, NodeKind::Other, None), Some(5));
    assert_eq!(tree.child_of_kind_from(0, NodeKind::ExportStatement, None, 3), None);
    assert!(tree.is_ancestor(0, 4));
    assert!(tree.is_ancestor(2, 4));
    assert!(tree.is_ancestor(3, 4));
    assert!(!tree.is_ancestor(4, 4));
    assert!(!tree.is_ancestor(1, 4));
    assert!(!tree.is_ancestor(4, 3));
    assert!(!tree.is_ancestor(0, 0));
    assert!(!has_namespace_ancestor(&tree, 4, 0));
}

#[test]
fn extraction_works_on_a_tree_written_by_hand() {
    let tree = interface_tree();

    let symbols = extract_symbols(&tree, 0);

    let expected = vec![TypeScriptSymbol::Symbol {
        symbol: Symbol {
            name: "A".to_string(),
            source_code: "/** d */ export interface A {}".to_string(),
        },
        is_exported: true,
    }];
    assert_eq!(symbols, expected);
    assert_eq!(extract_symbols(&tree, 2), expected);
    assert_eq!(extract_symbols(&tree, 3), vec![]);
    assert_eq!(get_jsdoc(&tree, Some(1)), Some("/** d */".to_string()));
    assert_eq!(get_jsdoc(&tree, Some(2)), None);
    assert_eq!(get_jsdoc(&tree, Some(9)), None);
    assert_eq!(get_jsdoc(&tree, None), None);
    let module = module_from_tree(&tree, "/a.d.ts".to_string());
    assert_eq!(module.path, "/a.d.ts");
    assert_eq!(module.jsdoc, None);
    assert_eq!(module.default_export_name, None);
    assert_eq!(module.symbols, expected);
}

#[test]
fn the_parser_gives_the_tree_that_was_written_by_hand() {
    let mut parser = make_parser();

    let tree = parse_tree("/** d */ export interface A {}", &mut parser).unwrap();

    let kinds: Vec<(NodeKind, FieldName, usize, usize, usize)> = (0..tree.len())
        .map(|i| tree.node(i))
        .filter(|n| n.named)
        .map(|n| (n.kind, n.field, n.parent, n.start, n.end))
        .collect();
    assert_eq!(
        kinds,
        vec![
            (NodeKind::Other, FieldName::Unnamed, 0, 0, 30),
            (NodeKind::Comment, FieldName::Unnamed, 0, 0, 8),
            (NodeKind::ExportStatement, FieldName::Unnamed, 0, 9, 30),
            (NodeKind::InterfaceDeclaration, FieldName::Other, 2, 16, 30),
            (NodeKind::TypeIdentifier, FieldName::Name, 4, 26, 27),
            (NodeKind::Other, FieldName::Body, 4, 28, 30),
        ]
    );
}

#[test]
fn a_text_with_a_syntax_error_has_a_tree_only_unchecked() {
    let mut parser = make_parser();

    assert!(parse_tree("class {", &mut parser).is_err());
    assert!(parse_unchecked("class {", &mut parser).is_some());
    assert!(parse_unchecked("", &mut parser).is_some());
    assert!(parse_unchecked("x", &mut Parser::new()).is_none());
}

fn tree_of(text: &str, nodes: Vec<SyntaxNode>) -> SyntaxTree {
    SyntaxTree::new(text.to_string(), nodes).unwrap()
}

#[test]
fn exported_declaration_without_name_fails() {
    let tree = tree_of(
        "export class {}",
        vec![
            node(NodeKind::Other, FieldName::Unnamed, 0, 0, 15),
            node(NodeKind::ExportStatement, FieldName::Unnamed, 0, 0, 15),
            node(NodeKind::ClassDeclaration, FieldName::Other, 1, 7, 15),
            node(NodeKind::Other, FieldName::Body, 2, 13, 15),
        ],
    );

    let result = public_api_from_tree(&tree, "pkg");

    assert_eq!(result, Err(ExtractionError::Malformed("Declaration without name".to_string())));
}

#[test]
fn exported_variable_without_name_fails() {
    let tree = tree_of(
        "export const {a} = b;",
        vec![
            node(NodeKind::Other, FieldName::Unnamed, 0, 0, 21),
            node(NodeKind::ExportStatement, FieldName::Unnamed, 0, 0, 21),
            node(NodeKind::LexicalDeclaration, FieldName::Other, 1, 7, 21),
            node(NodeKind::VariableDeclarator, FieldName::Unnamed, 2, 13, 20),
            node(NodeKind::Other, FieldName::Name, 3, 13, 16),
        ],
    );
    let mut namespaces = vec![Namespace {
        name: "pkg".to_string(),
        symbols: vec![],
        doc_comment: None,
    }];

    let result = process_node(&tree, 0, &mut namespaces);

    assert_eq!(result, Err(ExtractionError::Malformed("Variable without name".to_string())));
    assert_eq!(namespaces.len(), 1);
    assert!(namespaces[0].symbols.is_empty());
}

#[test]
fn exported_namespace_without_name_fails_after_what_was_gathered() {
    let tree = tree_of(
        "export type A = B; export namespace {}",
        vec![
            node(NodeKind::Other, FieldName::Unnamed, 0, 0, 38),
            node(NodeKind::ExportStatement, FieldName::Unnamed, 0, 0, 18),
            node(NodeKind::TypeAliasDeclaration, FieldName::Other, 1, 7, 18),
            node(NodeKind::TypeIdentifier, FieldName::Name, 2, 12, 13),
            node(NodeKind::ExportStatement, FieldName::Unnamed, 0, 19, 38),
            node(NodeKind::InternalModule, FieldName::Other, 4, 26, 38),
            node(NodeKind::StatementBlock, FieldName::Body, 5, 36, 38),
        ],
    );
    let mut namespaces = vec![Namespace {
        name: "pkg".to_string(),
        symbols: vec![],
        doc_comment: None,
    }];

    let result = process_node(&tree, 0, &mut namespaces);

    assert_eq!(result, Err(ExtractionError::Malformed("Namespace without name".to_string())));
    assert_eq!(namespaces.len(), 1);
    assert_eq!(namespaces[0].symbols.len(), 1);
    assert_eq!(namespaces[0].symbols[0].name, "A");
    assert_eq!(namespaces[0].symbols[0].source_code, "export type A = B;");
    assert_eq!(get_declaration_name(&tree, 2), Some("A".to_string()));
    assert_eq!(get_declaration_name(&tree, 5), None);
}

#[test]
fn nodes_out_of_the_order_of_a_walk_form_no_tree() {
    let root = node(NodeKind::Other, FieldName::Unnamed, 0, 0, 3);
    let first = node(NodeKind::Other, FieldName::Unnamed, 0, 0, 1);
    let below_first = node(NodeKind::Identifier, FieldName::Unnamed, 1, 0, 1);
    let second = node(NodeKind::Other, FieldName::Unnamed, 0, 1, 2);
    let late_below_first = node(NodeKind::Identifier, FieldName::Unnamed, 1, 1, 2);

    let in_order = SyntaxTree::new("abc".to_string(), vec![root, first, below_first, second]);
    assert!(in_order.is_some());
    let tree = in_order.unwrap();
    assert_eq!(tree.subtree_end(1), 3);
    assert_eq!(tree.subtree_end(0), 4);
    assert_eq!(tree.subtree_end(3), 4);
    assert_eq!(tree.below(1), (2, 3));
    assert_eq!(tree.below(7), (0, 0));
    let out_of_order =
        SyntaxTree::new("abc".to_string(), vec![root, first, second, late_below_first]);
    assert!(out_of_order.is_none());
}
