//! The extraction of a module from the text of its file.
//!
//! The symbols of a file, or of the body of a namespace, are its imports,
//! then its declarations, then its namespaces, then its exports, each group
//! in the order of the source text.

use vstd::prelude::*;
use crate::declarations::{declarations, extract_symbols};
use crate::default_export::{default_export_name, extract_default_export_name};
use crate::error::ExtractionError;
use crate::export_statements::{exports, extract_exports};
use crate::imports::{extract_imports, imports};
use crate::jsdoc::{doc_comment_at, get_jsdoc, is_module_jsdoc, is_module_tagged};
use crate::kinds::{FieldName, NodeKind};
use crate::module::{
    Module, ModuleView, SymbolView, TypeScriptSymbol, lemma_namespace_view, symbol_views,
};
use crate::reader::{parse_failure, parse_tree};
use crate::scope::{has_namespace_ancestor, is_top_level, parent_is, widen};
use crate::tree::{
    SyntaxNode, SyntaxTree, TreeView, all_below, find_child, first_child, lemma_ancestor_is_before,
    nothing_below_between, prev_sibling,
};

verus! {

/// The doc comment of the namespace `m`: the comment directly before the
/// parent of the namespace, or of its export statement if it is exported.
pub open spec fn namespace_jsdoc(t: TreeView, m: int) -> Option<Seq<char>> {
    let statement = if parent_is(t.nodes, m, NodeKind::ExportStatement) {
        t.nodes[m].parent as int
    } else {
        m
    };
    if 0 < statement < t.nodes.len() {
        doc_comment_at(t, prev_sibling(t.nodes, t.nodes[statement].parent as int))
    } else {
        None
    }
}

/// The identifier that fills the field `name` of the namespace `m`.
pub open spec fn namespace_name(nodes: Seq<SyntaxNode>, m: int) -> Option<usize> {
    find_child(nodes, m, NodeKind::Identifier, Some(FieldName::Name))
}

/// The statement block that fills the field `body` of the namespace `m`.
pub open spec fn namespace_body(nodes: Seq<SyntaxNode>, m: int) -> Option<usize> {
    find_child(nodes, m, NodeKind::StatementBlock, Some(FieldName::Body))
}

/// Whether node `m` is a namespace with a name and a body that stands
/// below `root` and in no other namespace below `root`.
pub open spec fn is_namespace(nodes: Seq<SyntaxNode>, root: int, m: int) -> bool {
    &&& 0 <= m < nodes.len()
    &&& nodes[m].kind == NodeKind::InternalModule
    &&& namespace_name(nodes, m) is Some
    &&& namespace_body(nodes, m) is Some
    &&& is_top_level(nodes, root, m)
}

/// The namespaces before `k` that stand below `root`, each with the
/// symbols of its body.
pub open spec fn namespaces_before(t: TreeView, root: int, k: int) -> Seq<SymbolView>
    decreases t.nodes.len() - root, k,
{
    if k <= 0 || k > t.nodes.len() {
        Seq::empty()
    } else if is_namespace(t.nodes, root, k - 1) {
        let body = namespace_body(t.nodes, k - 1).unwrap() as int;
        namespaces_before(t, root, k - 1).push(
            SymbolView::Namespace {
                name: t.text_of(namespace_name(t.nodes, k - 1).unwrap() as int),
                jsdoc: namespace_jsdoc(t, k - 1),
                content: if root < body < t.nodes.len() {
                    module_symbols(t, body)
                } else {
                    Seq::empty()
                },
                is_exported: parent_is(t.nodes, k - 1, NodeKind::ExportStatement),
            },
        )
    } else {
        namespaces_before(t, root, k - 1)
    }
}

/// The namespaces below `root`.
pub open spec fn namespaces(t: TreeView, root: int) -> Seq<SymbolView> {
    namespaces_before(t, root, t.nodes.len() as int)
}

/// The symbols below `root`: the imports, then the declarations, then the
/// namespaces, then the exports, each group in the order of the source
/// text.
pub open spec fn module_symbols(t: TreeView, root: int) -> Seq<SymbolView>
    decreases t.nodes.len() - root, t.nodes.len() + 1,
{
    imports(t, root) + declarations(t, root) + namespaces_before(
        t,
        root,
        t.nodes.len() as int,
    ) + exports(t, root)
}

/// Nodes that do not stand below `root` are no namespaces below `root`.
pub proof fn lemma_namespaces_skip(t: TreeView, root: int, a: int, b: int)
    requires
        0 <= a <= b <= t.nodes.len(),
        nothing_below_between(t.nodes, root, a, b),
    ensures
        namespaces_before(t, root, b) == namespaces_before(t, root, a),
    decreases b - a,
{
    if a < b {
        lemma_namespaces_skip(t, root, a, b - 1);
    }
}

/// The namespaces below `root` that stand in no other namespace below
/// `root`, each with the symbols of its body, in the order of the source
/// text.
pub fn extract_namespaces(tree: &SyntaxTree, root: usize) -> (found: Vec<TypeScriptSymbol>)
    requires
        tree.wf(),
        root < tree.nodes().len(),
    ensures
        symbol_views(found@) == namespaces(tree@, root as int),
    decreases tree.nodes().len() - root, 0nat,
{
    let mut found: Vec<TypeScriptSymbol> = Vec::new();
    let (first, end) = tree.below(root);
    let mut k: usize = first;
    proof {
        assert(symbol_views(found@) =~= namespaces_before(tree@, root as int, 0));
        lemma_namespaces_skip(tree@, root as int, 0, first as int);
        lemma_namespaces_skip(tree@, root as int, end as int, tree.nodes().len() as int);
    }
    while k < end
        invariant
            tree.wf(),
            root < tree.nodes().len(),
            first <= k <= end <= tree.nodes().len(),
            all_below(tree.nodes(), root as int, first as int, end as int),
            symbol_views(found@) == namespaces_before(tree@, root as int, k as int),
        decreases end - k,
    {
        if tree.node(k).kind == NodeKind::InternalModule && !has_namespace_ancestor(
            tree,
            k,
            root,
        ) {
            let name = tree.find_child(k, NodeKind::Identifier, Some(FieldName::Name));
            let body = tree.find_child(k, NodeKind::StatementBlock, Some(FieldName::Body));
            if name.is_some() && body.is_some() {
                let body = body.unwrap();
                proof {
                    lemma_ancestor_is_before(tree.nodes(), root as int, k as int);
                }
                let content = get_module_symbols(tree, body);
                let ghost inner = content@;
                let statement = widen(tree, k, NodeKind::ExportStatement);
                let is_exported = statement != k;
                let jsdoc = if statement > 0 {
                    get_jsdoc(tree, tree.prev_sibling(tree.node(statement).parent))
                } else {
                    None
                };
                let namespace = TypeScriptSymbol::Namespace {
                    name: tree.node_text(name.unwrap()),
                    jsdoc,
                    content,
                    is_exported,
                };
                let ghost before = found@;
                let ghost view = namespace@;
                proof {
                    lemma_namespace_view(namespace);
                }
                found.push(namespace);
                assert(symbol_views(found@) =~= symbol_views(before).push(view));
            }
        }
        k += 1;
    }
    found
}

/// The symbols below `root`: the imports, then the declarations, then the
/// namespaces, then the exports.
pub fn get_module_symbols(tree: &SyntaxTree, root: usize) -> (symbols: Vec<TypeScriptSymbol>)
    requires
        tree.wf(),
        root < tree.nodes().len(),
    ensures
        symbol_views(symbols@) == module_symbols(tree@, root as int),
    decreases tree.nodes().len() - root, 1nat,
{
    let mut symbols = extract_imports(tree, root);
    let mut declared = extract_symbols(tree, root);
    let mut nested = extract_namespaces(tree, root);
    let mut exported = extract_exports(tree, root);
    let ghost first = symbols@;
    let ghost second = declared@;
    let ghost third = nested@;
    let ghost fourth = exported@;
    symbols.append(&mut declared);
    symbols.append(&mut nested);
    symbols.append(&mut exported);
    assert(symbol_views(symbols@) =~= symbol_views(first) + symbol_views(second) + symbol_views(
        third,
    ) + symbol_views(fourth));
    symbols
}

/// The doc comment of the module: the first child of the root, if it is a
/// doc comment that carries a module tag.
pub open spec fn module_jsdoc(t: TreeView) -> Option<Seq<char>> {
    match doc_comment_at(t, first_child(t.nodes, 0)) {
        Some(comment) => if is_module_tagged(comment) {
            Some(comment)
        } else {
            None
        },
        None => None,
    }
}

/// What is extracted from the file with the tree `t` and the path `path`.
pub open spec fn module_of(t: TreeView, path: Seq<char>) -> ModuleView {
    ModuleView {
        path,
        jsdoc: module_jsdoc(t),
        symbols: module_symbols(t, 0),
        default_export_name: default_export_name(t, 0),
    }
}

/// What is extracted from the file with the syntax tree `tree`.
pub fn module_from_tree(tree: &SyntaxTree, file_path: String) -> (module: Module)
    requires
        tree.wf(),
    ensures
        module@ == module_of(tree@, file_path@),
{
    let jsdoc = match get_jsdoc(tree, tree.first_child(0)) {
        Some(comment) => if is_module_jsdoc(comment.as_str()) {
            Some(comment)
        } else {
            None
        },
        None => None,
    };
    let symbols = get_module_symbols(tree, 0);
    let default_export_name = extract_default_export_name(tree, 0);
    Module { path: file_path, jsdoc, symbols, default_export_name }
}

/// Parses `content` with `parser` and extracts the module of the file at
/// `file_path` from the syntax tree.
///
/// Fails with `Malformed` if the text has a syntax error or the parser
/// gives no tree. What is extracted is what [`module_from_tree`] gives for
/// a tree over `content`.
pub fn parse_typescript_file(
    content: &str,
    parser: &mut tree_sitter::Parser,
    file_path: String,
) -> (module: Result<Module, ExtractionError>)
    ensures
        match module {
            Ok(m) => exists|t: TreeView|
                t.wf() && t.text == content@ && m@ == #[trigger] module_of(t, file_path@),
            Err(e) => e matches ExtractionError::Malformed(message) && message@
                == parse_failure(),
        },
{
    match parse_tree(content, parser) {
        Ok(tree) => {
            let module = module_from_tree(&tree, file_path);
            Ok(module)
        },
        Err(e) => Err(e),
    }
}

} // verus!
