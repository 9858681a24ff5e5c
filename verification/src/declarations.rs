//! The declarations of a file: classes, interfaces, function signatures,
//! type aliases, enums and variables, each with the source text that
//! declares it.

use vstd::prelude::*;
use crate::jsdoc::{doc_comment_at, get_jsdoc, is_module_jsdoc, is_module_tagged};
use crate::kinds::{FieldName, NodeKind};
use crate::module::{Symbol, SymbolView, TypeScriptSymbol, symbol_views};
use crate::scope::{has_namespace_ancestor, is_top_level, parent_is, widen};
use crate::text::{slice, text_slice};
use crate::tree::{
    SyntaxNode, SyntaxTree, TreeView, is_ancestor, lemma_ancestor_is_transitive,
    lemma_prev_sibling_is_before, nothing_below_between, prev_sibling,
};

verus! {

/// The kinds of declaration whose name is a type identifier.
pub open spec fn declares_type(kind: NodeKind) -> bool {
    ||| kind == NodeKind::ClassDeclaration
    ||| kind == NodeKind::AbstractClassDeclaration
    ||| kind == NodeKind::InterfaceDeclaration
    ||| kind == NodeKind::TypeAliasDeclaration
}

/// The kinds of declaration whose name is an identifier.
pub open spec fn declares_value(kind: NodeKind) -> bool {
    kind == NodeKind::FunctionSignature || kind == NodeKind::EnumDeclaration
}

/// The declaration that node `k` names: a class, abstract class, interface
/// or type alias whose `name` is the type identifier `k`; a function
/// signature or enum whose `name` is the identifier `k`; or the lexical
/// declaration that holds the variable declarator whose `name` is the
/// identifier `k`.
pub open spec fn declaration_of(nodes: Seq<SyntaxNode>, k: int) -> Option<usize> {
    if 0 < k < nodes.len() && nodes[k].field == FieldName::Name {
        let p = nodes[k].parent;
        let holder = nodes[p as int];
        if nodes[k].kind == NodeKind::TypeIdentifier && declares_type(holder.kind) {
            Some(p)
        } else if nodes[k].kind == NodeKind::Identifier && declares_value(holder.kind) {
            Some(p)
        } else if nodes[k].kind == NodeKind::Identifier && holder.kind
            == NodeKind::VariableDeclarator && nodes[holder.parent as int].kind
            == NodeKind::LexicalDeclaration {
            Some(holder.parent)
        } else {
            None
        }
    } else {
        None
    }
}

/// The statement that declaration `d` is part of: the declaration, widened
/// to its parent if that is an ambient declaration, and then to the parent
/// of that if it is an export statement.
pub open spec fn definition_of(nodes: Seq<SyntaxNode>, d: int) -> int {
    let ambient = if parent_is(nodes, d, NodeKind::AmbientDeclaration) {
        nodes[d].parent as int
    } else {
        d
    };
    if parent_is(nodes, ambient, NodeKind::ExportStatement) {
        nodes[ambient].parent as int
    } else {
        ambient
    }
}

/// Whether declaration `d` is exported where it is declared.
pub open spec fn is_exported_declaration(nodes: Seq<SyntaxNode>, d: int) -> bool {
    let ambient = if parent_is(nodes, d, NodeKind::AmbientDeclaration) {
        nodes[d].parent as int
    } else {
        d
    };
    parent_is(nodes, ambient, NodeKind::ExportStatement)
}

/// Where the source text of the statement `def` begins: at the doc comment
/// that stands directly before it, unless that is the comment of the module;
/// else at the statement.
pub open spec fn definition_start(t: TreeView, def: int) -> int {
    let before = prev_sibling(t.nodes, def);
    match doc_comment_at(t, before) {
        Some(comment) => if is_module_tagged(comment) {
            t.nodes[def].start as int
        } else {
            t.nodes[before.unwrap() as int].start as int
        },
        None => t.nodes[def].start as int,
    }
}

/// The symbol that the declaration named by node `k` gives.
pub open spec fn declared_symbol(t: TreeView, k: int) -> SymbolView {
    let d = declaration_of(t.nodes, k).unwrap() as int;
    let def = definition_of(t.nodes, d);
    SymbolView::Symbol {
        name: t.text_of(k),
        source_code: text_slice(t.text, definition_start(t, def), t.nodes[def].end as int),
        is_exported: is_exported_declaration(t.nodes, d),
    }
}

/// Whether node `k` names a declaration that stands below `root` and in no
/// namespace below `root`.
pub open spec fn names_declaration(t: TreeView, root: int, k: int) -> bool {
    declaration_of(t.nodes, k) matches Some(d) && is_top_level(t.nodes, root, d as int)
}

/// The symbols of the declarations below `root` that are named by a node
/// before `k`, in the order of their names.
pub open spec fn declarations_before(t: TreeView, root: int, k: int) -> Seq<SymbolView>
    decreases k,
{
    if k <= 0 {
        Seq::empty()
    } else if names_declaration(t, root, k - 1) {
        declarations_before(t, root, k - 1).push(declared_symbol(t, k - 1))
    } else {
        declarations_before(t, root, k - 1)
    }
}

/// The symbols of the declarations below `root`.
pub open spec fn declarations(t: TreeView, root: int) -> Seq<SymbolView> {
    declarations_before(t, root, t.nodes.len() as int)
}

/// The declaration that node `k` names.
fn declaration_at(tree: &SyntaxTree, k: usize) -> (declaration: Option<usize>)
    requires
        tree.wf(),
        k < tree.nodes().len(),
    ensures
        declaration == declaration_of(tree.nodes(), k as int),
        declaration matches Some(d) ==> d < k,
{
    let node = tree.node(k);
    if k == 0 || node.field != FieldName::Name {
        return None;
    }
    let p = node.parent;
    let holder = tree.node(p);
    let names_type = holder.kind == NodeKind::ClassDeclaration || holder.kind
        == NodeKind::AbstractClassDeclaration || holder.kind == NodeKind::InterfaceDeclaration
        || holder.kind == NodeKind::TypeAliasDeclaration;
    let names_value = holder.kind == NodeKind::FunctionSignature || holder.kind
        == NodeKind::EnumDeclaration;
    if node.kind == NodeKind::TypeIdentifier && names_type {
        Some(p)
    } else if node.kind == NodeKind::Identifier && names_value {
        Some(p)
    } else if node.kind == NodeKind::Identifier && holder.kind == NodeKind::VariableDeclarator
        && p > 0 && tree.node(holder.parent).kind == NodeKind::LexicalDeclaration {
        Some(holder.parent)
    } else {
        None
    }
}

/// The symbol of the declaration `d`, named by node `k`.
fn symbol_of_declaration(tree: &SyntaxTree, k: usize, d: usize) -> (symbol: TypeScriptSymbol)
    requires
        tree.wf(),
        k < tree.nodes().len(),
        declaration_of(tree.nodes(), k as int) == Some(d),
    ensures
        symbol@ == declared_symbol(tree@, k as int),
{
    let name = tree.node_text(k);
    let ambient = widen(tree, d, NodeKind::AmbientDeclaration);
    let definition = widen(tree, ambient, NodeKind::ExportStatement);
    let is_exported = definition != ambient;
    let end = tree.node(definition).end;
    let mut start = tree.node(definition).start;
    let before = tree.prev_sibling(definition);
    match get_jsdoc(tree, before) {
        Some(comment) => {
            if !is_module_jsdoc(comment.as_str()) {
                let b = before.unwrap();
                start = tree.node(b).start;
                proof {
                    lemma_prev_sibling_is_before(tree.nodes(), definition as int);
                }
            }
        },
        None => {},
    }
    let source_code = slice(tree.text(), start, end);
    TypeScriptSymbol::Symbol { symbol: Symbol { name, source_code }, is_exported }
}

/// A declaration stands above its name.
pub proof fn lemma_declaration_is_above_its_name(t: TreeView, k: int)
    requires
        t.wf(),
        declaration_of(t.nodes, k) is Some,
    ensures
        is_ancestor(t.nodes, declaration_of(t.nodes, k).unwrap() as int, k),
{
    let p = t.nodes[k].parent as int;
    assert(0 <= p < k);
    if declaration_of(t.nodes, k).unwrap() != p {
        assert(t.nodes[p].kind == NodeKind::VariableDeclarator);
        assert(p != 0);
        assert(is_ancestor(t.nodes, t.nodes[p].parent as int, p));
    }
}

/// Nodes that do not stand below `root` name no declaration below `root`.
pub proof fn lemma_declarations_skip(t: TreeView, root: int, a: int, b: int)
    requires
        t.wf(),
        0 <= a <= b <= t.nodes.len(),
        nothing_below_between(t.nodes, root, a, b),
    ensures
        declarations_before(t, root, b) == declarations_before(t, root, a),
    decreases b - a,
{
    if a < b {
        lemma_declarations_skip(t, root, a, b - 1);
        if names_declaration(t, root, b - 1) {
            let d = declaration_of(t.nodes, b - 1).unwrap() as int;
            lemma_declaration_is_above_its_name(t, b - 1);
            lemma_ancestor_is_transitive(t.nodes, root, d, b - 1);
        }
    }
}

/// The symbols of the declarations below `root` that stand in no namespace
/// below `root`, in the order of their names in the source text.
pub fn extract_symbols(tree: &SyntaxTree, root: usize) -> (symbols: Vec<TypeScriptSymbol>)
    requires
        tree.wf(),
    ensures
        symbol_views(symbols@) == declarations(tree@, root as int),
{
    let mut symbols: Vec<TypeScriptSymbol> = Vec::new();
    let (first, end) = tree.below(root);
    let mut k: usize = first;
    proof {
        assert(symbol_views(symbols@) =~= declarations_before(tree@, root as int, 0));
        lemma_declarations_skip(tree@, root as int, 0, first as int);
        lemma_declarations_skip(tree@, root as int, end as int, tree.nodes().len() as int);
    }
    while k < end
        invariant
            tree.wf(),
            k <= end <= tree.nodes().len(),
            symbol_views(symbols@) == declarations_before(tree@, root as int, k as int),
        decreases end - k,
    {
        match declaration_at(tree, k) {
            Some(d) => {
                if tree.is_ancestor(root, d) && !has_namespace_ancestor(tree, d, root) {
                    let symbol = symbol_of_declaration(tree, k, d);
                    let ghost before = symbols@;
                    symbols.push(symbol);
                    assert(symbol_views(symbols@) =~= symbol_views(before).push(symbol@));
                }
            },
            None => {},
        }
        k += 1;
    }
    symbols
}

} // verus!
