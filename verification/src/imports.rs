//! The imports of a file. A statement gives one import for each kind of
//! binding that it has.

use vstd::prelude::*;
use crate::aliases::{insert_alias, with_alias};
use crate::kinds::NodeKind;
use crate::module::{
    ImportTarget, ImportTargetView, SymbolView, TypeScriptSymbol, pair_views, symbol_views,
    text_option, text_views,
};
use crate::scope::{has_namespace_ancestor, is_top_level, source_fragment, source_of};
use crate::tree::{
    SyntaxNode, SyntaxTree, TreeView, all_below, child_of_kind_from, find_child, first_child,
    is_child, lemma_child_is_below, nothing_below_between,
};

verus! {

/// The node that names what the specifier `sp` imports: its first child, if
/// that is an identifier.
pub open spec fn specifier_name(nodes: Seq<SyntaxNode>, sp: int) -> Option<usize> {
    match first_child(nodes, sp) {
        Some(first) => if nodes[first as int].kind == NodeKind::Identifier {
            Some(first)
        } else {
            None
        },
        None => None,
    }
}

/// The node that gives the alias of the specifier `sp`: the first identifier
/// among its children after the first.
pub open spec fn specifier_alias(nodes: Seq<SyntaxNode>, sp: int) -> Option<usize> {
    match first_child(nodes, sp) {
        Some(first) => child_of_kind_from(nodes, sp, NodeKind::Identifier, None, first + 1),
        None => None,
    }
}

/// The names and the renamed entries of the import specifiers before `k`
/// among the children of the named-imports block `block`.
pub open spec fn named_imports_before(t: TreeView, block: int, k: int) -> (
    Seq<Seq<char>>,
    Seq<(Seq<char>, Seq<char>)>,
)
    decreases k,
{
    if k <= 0 {
        (Seq::empty(), Seq::empty())
    } else {
        let (names, aliases) = named_imports_before(t, block, k - 1);
        if is_child(t.nodes, block, k - 1) && t.nodes[k - 1].kind == NodeKind::ImportSpecifier {
            match specifier_name(t.nodes, k - 1) {
                Some(name) => (
                    names.push(t.text_of(name as int)),
                    match specifier_alias(t.nodes, k - 1) {
                        Some(alias) => with_alias(
                            aliases,
                            t.text_of(name as int),
                            t.text_of(alias as int),
                        ),
                        None => aliases,
                    },
                ),
                None => (names, aliases),
            }
        } else {
            (names, aliases)
        }
    }
}

/// What the child `j` of an import clause imports: the default export for
/// an identifier, a namespace for a namespace import that names one, the
/// listed names for a named-imports block, nothing for any other node.
pub open spec fn import_target_at(t: TreeView, j: int) -> Option<ImportTargetView> {
    let kind = t.nodes[j].kind;
    if kind == NodeKind::Identifier {
        Some(ImportTargetView::Default { name: t.text_of(j) })
    } else if kind == NodeKind::NamespaceImport {
        match find_child(t.nodes, j, NodeKind::Identifier, None) {
            Some(name) => Some(ImportTargetView::Namespace { name: t.text_of(name as int) }),
            None => None,
        }
    } else if kind == NodeKind::NamedImports {
        let (names, aliases) = named_imports_before(t, j, t.nodes.len() as int);
        Some(ImportTargetView::Named { names, aliases })
    } else {
        None
    }
}

/// The imports from `source` that the children before `k` of the import
/// clause `clause` give.
pub open spec fn clause_imports_before(
    t: TreeView,
    clause: int,
    source: Seq<char>,
    k: int,
) -> Seq<SymbolView>
    decreases k,
{
    if k <= 0 {
        Seq::empty()
    } else {
        let rest = clause_imports_before(t, clause, source, k - 1);
        if is_child(t.nodes, clause, k - 1) {
            match import_target_at(t, k - 1) {
                Some(target) => rest.push(
                    SymbolView::ModuleImport { source_module: source, target },
                ),
                None => rest,
            }
        } else {
            rest
        }
    }
}

/// The imports that node `s` gives: those of its clause, if it is an import
/// statement with a clause and a source.
pub open spec fn statement_imports(t: TreeView, s: int) -> Seq<SymbolView> {
    if t.nodes[s].kind == NodeKind::ImportStatement {
        match (
            find_child(t.nodes, s, NodeKind::ImportClause, None),
            source_fragment(t.nodes, s),
        ) {
            (Some(clause), Some(source)) => clause_imports_before(
                t,
                clause as int,
                t.text_of(source as int),
                t.nodes.len() as int,
            ),
            _ => Seq::empty(),
        }
    } else {
        Seq::empty()
    }
}

/// The imports of the statements before `k` that stand below `root` and in
/// no namespace below `root`.
pub open spec fn imports_before(t: TreeView, root: int, k: int) -> Seq<SymbolView>
    decreases k,
{
    if k <= 0 {
        Seq::empty()
    } else if is_top_level(t.nodes, root, k - 1) {
        imports_before(t, root, k - 1) + statement_imports(t, k - 1)
    } else {
        imports_before(t, root, k - 1)
    }
}

/// The imports of the statements below `root`.
pub open spec fn imports(t: TreeView, root: int) -> Seq<SymbolView> {
    imports_before(t, root, t.nodes.len() as int)
}

/// The text of node `node` where it is an identifier.
pub open spec fn identifier_text(t: TreeView, node: int) -> Option<Seq<char>> {
    if 0 <= node < t.nodes.len() && t.nodes[node].kind == NodeKind::Identifier {
        Some(t.text_of(node))
    } else {
        None
    }
}

/// The text of node `node`, if it is an identifier.
pub fn extract_identifier_text(tree: &SyntaxTree, node: usize) -> (text: Option<String>)
    requires
        tree.wf(),
    ensures
        text_option(text) == identifier_text(tree@, node as int),
{
    if node < tree.len() && tree.node(node).kind == NodeKind::Identifier {
        Some(tree.node_text(node))
    } else {
        None
    }
}

/// Nodes that do not stand below a named-imports block give it no name.
pub proof fn lemma_named_imports_skip(t: TreeView, block: int, a: int, b: int)
    requires
        t.wf(),
        0 <= a <= b <= t.nodes.len(),
        nothing_below_between(t.nodes, block, a, b),
    ensures
        named_imports_before(t, block, b) == named_imports_before(t, block, a),
    decreases b - a,
{
    if a < b {
        lemma_named_imports_skip(t, block, a, b - 1);
        if is_child(t.nodes, block, b - 1) {
            lemma_child_is_below(t.text, t.nodes, block, b - 1);
        }
    }
}

/// The names and the renamed entries of a named-imports block.
fn named_imports(tree: &SyntaxTree, block: usize) -> (target: ImportTarget)
    requires
        tree.wf(),
    ensures
        target@ == (ImportTargetView::Named {
            names: named_imports_before(tree@, block as int, tree.nodes().len() as int).0,
            aliases: named_imports_before(tree@, block as int, tree.nodes().len() as int).1,
        }),
{
    let mut names: Vec<String> = Vec::new();
    let mut aliases: Vec<(String, String)> = Vec::new();
    let (first, end) = tree.below(block);
    let mut k: usize = first;
    proof {
        assert(text_views(names@) =~= named_imports_before(tree@, block as int, 0).0);
        assert(pair_views(aliases@) =~= named_imports_before(tree@, block as int, 0).1);
        lemma_named_imports_skip(tree@, block as int, 0, first as int);
        lemma_named_imports_skip(tree@, block as int, end as int, tree.nodes().len() as int);
    }
    while k < end
        invariant
            tree.wf(),
            k <= end <= tree.nodes().len(),
            text_views(names@) == named_imports_before(tree@, block as int, k as int).0,
            pair_views(aliases@) == named_imports_before(tree@, block as int, k as int).1,
        decreases end - k,
    {
        let node = tree.node(k);
        if k > 0 && node.parent == block && node.kind == NodeKind::ImportSpecifier {
            let first = tree.first_child(k);
            let found = match first {
                Some(first) => extract_identifier_text(tree, first),
                None => None,
            };
            match found {
                Some(name) => {
                    let first = first.unwrap();
                    let ghost before = names@;
                    names.push(name.clone());
                    assert(text_views(names@) =~= text_views(before).push(name@));
                    match tree.child_of_kind_from(k, NodeKind::Identifier, None, first + 1) {
                        Some(alias) => {
                            insert_alias(&mut aliases, name, tree.node_text(alias));
                        },
                        None => {},
                    }
                },
                None => {},
            }
        }
        k += 1;
    }
    ImportTarget::Named { names, aliases }
}

/// What the child `j` of an import clause imports.
fn import_target(tree: &SyntaxTree, j: usize) -> (target: Option<ImportTarget>)
    requires
        tree.wf(),
        j < tree.nodes().len(),
    ensures
        match target {
            Some(found) => import_target_at(tree@, j as int) == Some(found@),
            None => import_target_at(tree@, j as int) is None,
        },
{
    let kind = tree.node(j).kind;
    if kind == NodeKind::Identifier {
        Some(ImportTarget::Default { name: tree.node_text(j) })
    } else if kind == NodeKind::NamespaceImport {
        match tree.find_child(j, NodeKind::Identifier, None) {
            Some(name) => Some(ImportTarget::Namespace { name: tree.node_text(name) }),
            None => None,
        }
    } else if kind == NodeKind::NamedImports {
        Some(named_imports(tree, j))
    } else {
        None
    }
}

/// Nodes that do not stand below an import clause give it no import.
pub proof fn lemma_clause_imports_skip(t: TreeView, clause: int, source: Seq<char>, a: int, b: int)
    requires
        t.wf(),
        0 <= a <= b <= t.nodes.len(),
        nothing_below_between(t.nodes, clause, a, b),
    ensures
        clause_imports_before(t, clause, source, b) == clause_imports_before(
            t,
            clause,
            source,
            a,
        ),
    decreases b - a,
{
    if a < b {
        lemma_clause_imports_skip(t, clause, source, a, b - 1);
        if is_child(t.nodes, clause, b - 1) {
            lemma_child_is_below(t.text, t.nodes, clause, b - 1);
        }
    }
}

/// The imports from `source` that the children of the import clause
/// `clause` give.
fn clause_imports(tree: &SyntaxTree, clause: usize, source: &String) -> (found: Vec<
    TypeScriptSymbol,
>)
    requires
        tree.wf(),
    ensures
        symbol_views(found@) == clause_imports_before(
            tree@,
            clause as int,
            source@,
            tree.nodes().len() as int,
        ),
{
    let mut found: Vec<TypeScriptSymbol> = Vec::new();
    let (first, end) = tree.below(clause);
    let mut k: usize = first;
    proof {
        assert(symbol_views(found@) =~= clause_imports_before(tree@, clause as int, source@, 0));
        lemma_clause_imports_skip(tree@, clause as int, source@, 0, first as int);
        lemma_clause_imports_skip(
            tree@,
            clause as int,
            source@,
            end as int,
            tree.nodes().len() as int,
        );
    }
    while k < end
        invariant
            tree.wf(),
            k <= end <= tree.nodes().len(),
            symbol_views(found@) == clause_imports_before(
                tree@,
                clause as int,
                source@,
                k as int,
            ),
        decreases end - k,
    {
        if k > 0 && tree.node(k).parent == clause {
            match import_target(tree, k) {
                Some(target) => {
                    let symbol = TypeScriptSymbol::ModuleImport {
                        source_module: source.clone(),
                        target,
                    };
                    let ghost before = found@;
                    found.push(symbol);
                    assert(symbol_views(found@) =~= symbol_views(before).push(symbol@));
                },
                None => {},
            }
        }
        k += 1;
    }
    found
}

/// Nodes that do not stand below `root` give no import below `root`.
pub proof fn lemma_imports_skip(t: TreeView, root: int, a: int, b: int)
    requires
        0 <= a <= b,
        nothing_below_between(t.nodes, root, a, b),
    ensures
        imports_before(t, root, b) == imports_before(t, root, a),
    decreases b - a,
{
    if a < b {
        lemma_imports_skip(t, root, a, b - 1);
    }
}

/// The imports of the import statements below `root` that stand in no
/// namespace below `root`, in the order of the source text. A statement gives one import for its default binding, one
/// for its namespace binding and one for its block of named imports, as far
/// as it has them.
pub fn extract_imports(tree: &SyntaxTree, root: usize) -> (found: Vec<TypeScriptSymbol>)
    requires
        tree.wf(),
    ensures
        symbol_views(found@) == imports(tree@, root as int),
{
    let mut found: Vec<TypeScriptSymbol> = Vec::new();
    let (first, end) = tree.below(root);
    let mut k: usize = first;
    proof {
        assert(symbol_views(found@) =~= imports_before(tree@, root as int, 0));
        lemma_imports_skip(tree@, root as int, 0, first as int);
        lemma_imports_skip(tree@, root as int, end as int, tree.nodes().len() as int);
    }
    while k < end
        invariant
            tree.wf(),
            first <= k <= end <= tree.nodes().len(),
            all_below(tree.nodes(), root as int, first as int, end as int),
            symbol_views(found@) == imports_before(tree@, root as int, k as int),
        decreases end - k,
    {
        if tree.node(k).kind == NodeKind::ImportStatement && !has_namespace_ancestor(
            tree,
            k,
            root,
        ) {
            let clause = tree.find_child(k, NodeKind::ImportClause, None);
            let source = source_of(tree, k);
            if clause.is_some() && source.is_some() {
                let source_module = tree.node_text(source.unwrap());
                let mut targets = clause_imports(tree, clause.unwrap(), &source_module);
                let ghost before = found@;
                let ghost added = targets@;
                found.append(&mut targets);
                assert(symbol_views(found@) =~= symbol_views(before) + symbol_views(added));
            }
        }
        assert(symbol_views(found@) =~= imports_before(tree@, root as int, k + 1));
        k += 1;
    }
    found
}

} // verus!
