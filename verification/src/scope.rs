//! Where a node stands: below which root, inside which namespace, and
//! which module its statement names.

use vstd::prelude::*;
use crate::kinds::{FieldName, NodeKind};
use crate::module::text_option;
use crate::tree::{SyntaxNode, SyntaxTree, TreeView, find_child, is_ancestor};

verus! {

/// Whether some node on the way from node `i` up to `root`, both left out,
/// is a namespace.
pub open spec fn inside_namespace(nodes: Seq<SyntaxNode>, root: int, i: int) -> bool
    decreases i,
{
    if 0 < i < nodes.len() && nodes[i].parent < i {
        let p = nodes[i].parent as int;
        if p == root {
            false
        } else if nodes[p].kind == NodeKind::InternalModule {
            true
        } else {
            inside_namespace(nodes, root, p)
        }
    } else {
        false
    }
}

/// Whether node `i` stands below `root` and in no namespace below `root`.
pub open spec fn is_top_level(nodes: Seq<SyntaxNode>, root: int, i: int) -> bool {
    is_ancestor(nodes, root, i) && !inside_namespace(nodes, root, i)
}

/// Whether some node on the way from node `i` up to `root` is a namespace.
pub fn has_namespace_ancestor(tree: &SyntaxTree, i: usize, root: usize) -> (inside: bool)
    requires
        tree.wf(),
    ensures
        inside == inside_namespace(tree.nodes(), root as int, i as int),
{
    if i >= tree.len() {
        return false;
    }
    let mut k: usize = i;
    loop
        invariant
            tree.wf(),
            k < tree.nodes().len(),
            inside_namespace(tree.nodes(), root as int, k as int) == inside_namespace(
                tree.nodes(),
                root as int,
                i as int,
            ),
        decreases k,
    {
        if k == 0 {
            return false;
        }
        let p = tree.node(k).parent;
        if p == root {
            return false;
        }
        if tree.node(p).kind == NodeKind::InternalModule {
            return true;
        }
        k = p;
    }
}

/// Whether node `i` has a parent of the kind `kind`.
pub open spec fn parent_is(nodes: Seq<SyntaxNode>, i: int, kind: NodeKind) -> bool {
    0 < i < nodes.len() && nodes[nodes[i].parent as int].kind == kind
}

/// The parent of node `i`, if it has the kind `kind`; else node `i`.
pub(crate) fn widen(tree: &SyntaxTree, i: usize, kind: NodeKind) -> (wide: usize)
    requires
        tree.wf(),
        i < tree.nodes().len(),
    ensures
        wide < tree.nodes().len(),
        wide == if parent_is(tree.nodes(), i as int, kind) {
            tree.nodes()[i as int].parent
        } else {
            i
        },
{
    if i > 0 && tree.node(tree.node(i).parent).kind == kind {
        tree.node(i).parent
    } else {
        i
    }
}

/// The string fragment of the string that fills the field `source` of the
/// statement `s`: the module that the statement names.
pub open spec fn source_fragment(nodes: Seq<SyntaxNode>, s: int) -> Option<usize> {
    match find_child(nodes, s, NodeKind::StringLiteral, Some(FieldName::Source)) {
        Some(literal) => find_child(nodes, literal as int, NodeKind::StringFragment, None),
        None => None,
    }
}

/// The string fragment that names the module of the statement `s`.
pub(crate) fn source_of(tree: &SyntaxTree, s: usize) -> (source: Option<usize>)
    requires
        tree.wf(),
    ensures
        source == source_fragment(tree.nodes(), s as int),
        source matches Some(f) ==> f < tree.nodes().len(),
{
    match tree.find_child(s, NodeKind::StringLiteral, Some(FieldName::Source)) {
        Some(literal) => tree.find_child(literal, NodeKind::StringFragment, None),
        None => None,
    }
}

/// The text of an optional node.
pub open spec fn optional_text(t: TreeView, node: Option<usize>) -> Option<Seq<char>> {
    match node {
        Some(i) => Some(t.text_of(i as int)),
        None => None,
    }
}

/// The text of an optional node.
pub(crate) fn text_of_optional(tree: &SyntaxTree, node: Option<usize>) -> (text: Option<String>)
    requires
        tree.wf(),
        node matches Some(i) ==> i < tree.nodes().len(),
    ensures
        text_option(text) == optional_text(tree@, node),
{
    match node {
        Some(i) => Some(tree.node_text(i)),
        None => None,
    }
}

} // verus!
