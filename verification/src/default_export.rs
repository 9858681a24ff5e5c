//! The name that a file exports by default.

use vstd::prelude::*;
use crate::kinds::{FieldName, NodeKind};
use crate::module::text_option;
use crate::scope::{optional_text, text_of_optional};
use crate::tree::{
    SyntaxNode, SyntaxTree, TreeView, all_below, child_of_kind_from, find_child, is_ancestor,
    is_child, lemma_subtree_has_ended, no_child_from, nothing_below_between,
};

verus! {

/// The first named child of `x` that fills the field `name`.
pub open spec fn named_name_from(nodes: Seq<SyntaxNode>, x: int, k: int) -> Option<usize>
    decreases nodes.len() - k,
{
    if k < 0 || k >= nodes.len() {
        None
    } else if is_child(nodes, x, k) && nodes[k].named && nodes[k].field == FieldName::Name {
        Some(k as usize)
    } else {
        named_name_from(nodes, x, k + 1)
    }
}

/// The name of the first named child from `k` on of the ambient
/// declaration `ambient` that has a name.
pub open spec fn declared_name_from(nodes: Seq<SyntaxNode>, ambient: int, k: int) -> Option<usize>
    decreases nodes.len() - k,
{
    if k < 0 || k >= nodes.len() {
        None
    } else if is_child(nodes, ambient, k) && nodes[k].named && named_name_from(nodes, k, k + 1)
        is Some {
        named_name_from(nodes, k, k + 1)
    } else {
        declared_name_from(nodes, ambient, k + 1)
    }
}

/// The name that node `s` exports by default, if it is an export statement
/// with the keyword `default`: the identifier that fills its field `value`
/// after the keyword, or else the name of what its ambient declaration
/// declares after the keyword `declare`.
pub open spec fn default_export_at(nodes: Seq<SyntaxNode>, s: int) -> Option<usize> {
    if nodes[s].kind == NodeKind::ExportStatement {
        match find_child(nodes, s, NodeKind::DefaultKeyword, None) {
            Some(keyword) => match child_of_kind_from(
                nodes,
                s,
                NodeKind::Identifier,
                Some(FieldName::Value),
                keyword + 1,
            ) {
                Some(value) => Some(value),
                None => match child_of_kind_from(
                    nodes,
                    s,
                    NodeKind::AmbientDeclaration,
                    None,
                    keyword + 1,
                ) {
                    Some(ambient) => match find_child(
                        nodes,
                        ambient as int,
                        NodeKind::DeclareKeyword,
                        None,
                    ) {
                        Some(declare) => declared_name_from(nodes, ambient as int, declare + 1),
                        None => None,
                    },
                    None => None,
                },
            },
            None => None,
        }
    } else {
        None
    }
}

/// The name that the first statement from `k` on below `root` exports by
/// default.
pub open spec fn default_export_from(nodes: Seq<SyntaxNode>, root: int, k: int) -> Option<usize>
    decreases nodes.len() - k,
{
    if k < 0 || k >= nodes.len() {
        None
    } else if is_ancestor(nodes, root, k) && default_export_at(nodes, k) is Some {
        default_export_at(nodes, k)
    } else {
        default_export_from(nodes, root, k + 1)
    }
}

/// The name of the default export below `root`.
pub open spec fn default_export_name(t: TreeView, root: int) -> Option<Seq<char>> {
    optional_text(t, default_export_from(t.nodes, root, 0))
}

/// A search for a name that begins where no child stands finds none.
pub proof fn lemma_no_named_name_found(nodes: Seq<SyntaxNode>, x: int, k: int)
    requires
        no_child_from(nodes, x, k),
    ensures
        named_name_from(nodes, x, k) is None,
    decreases nodes.len() - k,
{
    if 0 <= k < nodes.len() {
        lemma_no_named_name_found(nodes, x, k + 1);
    }
}

/// A search for a declared name that begins where no child stands finds
/// none.
pub proof fn lemma_no_declared_name_found(nodes: Seq<SyntaxNode>, ambient: int, k: int)
    requires
        no_child_from(nodes, ambient, k),
    ensures
        declared_name_from(nodes, ambient, k) is None,
    decreases nodes.len() - k,
{
    if 0 <= k < nodes.len() {
        lemma_no_declared_name_found(nodes, ambient, k + 1);
    }
}

/// The first named child of `x` from `k` on that fills the field `name`.
fn find_named_name(tree: &SyntaxTree, x: usize, k: usize) -> (name: Option<usize>)
    requires
        tree.wf(),
    ensures
        name == named_name_from(tree.nodes(), x as int, k as int),
        name matches Some(n) ==> n < tree.nodes().len(),
{
    let mut j: usize = k;
    while j < tree.len()
        invariant
            tree.wf(),
            k <= j,
            named_name_from(tree.nodes(), x as int, j as int) == named_name_from(
                tree.nodes(),
                x as int,
                k as int,
            ),
        decreases tree.nodes().len() - j,
    {
        let node = tree.node(j);
        if j > x && node.parent < x {
            proof {
                lemma_subtree_has_ended(tree@.text, tree.nodes(), x as int, j as int);
                lemma_no_named_name_found(tree.nodes(), x as int, j as int);
            }
            return None;
        }
        if j > 0 && node.parent == x && node.named && node.field == FieldName::Name {
            return Some(j);
        }
        j += 1;
    }
    None
}

/// The name of the first named child from `k` on of `ambient` that has one.
fn find_declared_name(tree: &SyntaxTree, ambient: usize, k: usize) -> (name: Option<usize>)
    requires
        tree.wf(),
    ensures
        name == declared_name_from(tree.nodes(), ambient as int, k as int),
        name matches Some(n) ==> n < tree.nodes().len(),
{
    let mut j: usize = k;
    while j < tree.len()
        invariant
            tree.wf(),
            k <= j,
            declared_name_from(tree.nodes(), ambient as int, j as int) == declared_name_from(
                tree.nodes(),
                ambient as int,
                k as int,
            ),
        decreases tree.nodes().len() - j,
    {
        let node = tree.node(j);
        if j > ambient && node.parent < ambient {
            proof {
                lemma_subtree_has_ended(tree@.text, tree.nodes(), ambient as int, j as int);
                lemma_no_declared_name_found(tree.nodes(), ambient as int, j as int);
            }
            return None;
        }
        if j > 0 && node.parent == ambient && node.named {
            let name = find_named_name(tree, j, j + 1);
            if name.is_some() {
                return name;
            }
        }
        j += 1;
    }
    None
}

/// The name that the export statement `s` exports by default.
fn default_export_of(tree: &SyntaxTree, s: usize) -> (name: Option<usize>)
    requires
        tree.wf(),
        s < tree.nodes().len(),
        tree.nodes()[s as int].kind == NodeKind::ExportStatement,
    ensures
        name == default_export_at(tree.nodes(), s as int),
        name matches Some(n) ==> n < tree.nodes().len(),
{
    match tree.find_child(s, NodeKind::DefaultKeyword, None) {
        Some(keyword) => {
            match tree.child_of_kind_from(
                s,
                NodeKind::Identifier,
                Some(FieldName::Value),
                keyword + 1,
            ) {
                Some(value) => Some(value),
                None => {
                    match tree.child_of_kind_from(
                        s,
                        NodeKind::AmbientDeclaration,
                        None,
                        keyword + 1,
                    ) {
                        Some(ambient) => {
                            match tree.find_child(ambient, NodeKind::DeclareKeyword, None) {
                                Some(declare) => find_declared_name(tree, ambient, declare + 1),
                                None => None,
                            }
                        },
                        None => None,
                    }
                },
            }
        },
        None => None,
    }
}

/// Nodes that do not stand below `root` give no default export below
/// `root`.
pub proof fn lemma_default_export_skip(nodes: Seq<SyntaxNode>, root: int, a: int, b: int)
    requires
        0 <= a <= b <= nodes.len(),
        nothing_below_between(nodes, root, a, b),
    ensures
        default_export_from(nodes, root, a) == default_export_from(nodes, root, b),
        b == nodes.len() ==> default_export_from(nodes, root, a) is None,
    decreases b - a,
{
    if a < b {
        lemma_default_export_skip(nodes, root, a + 1, b);
    }
}

/// The name of the default export below `root`: that of the first export
/// statement that has one.
pub fn extract_default_export_name(tree: &SyntaxTree, root: usize) -> (name: Option<String>)
    requires
        tree.wf(),
    ensures
        text_option(name) == default_export_name(tree@, root as int),
{
    let (first, end) = tree.below(root);
    let mut k: usize = first;
    proof {
        lemma_default_export_skip(tree.nodes(), root as int, 0, first as int);
        lemma_default_export_skip(tree.nodes(), root as int, end as int, tree.nodes().len() as int);
    }
    while k < end
        invariant
            tree.wf(),
            first <= k <= end <= tree.nodes().len(),
            all_below(tree.nodes(), root as int, first as int, end as int),
            default_export_from(tree.nodes(), root as int, end as int) is None,
            default_export_from(tree.nodes(), root as int, k as int) == default_export_from(
                tree.nodes(),
                root as int,
                0,
            ),
        decreases end - k,
    {
        if tree.node(k).kind == NodeKind::ExportStatement {
            let name = default_export_of(tree, k);
            if name.is_some() {
                return text_of_optional(tree, name);
            }
        }
        k += 1;
    }
    None
}

} // verus!
