//! Doc comments, and those among them that describe a module as a whole.

use vstd::prelude::*;
use crate::kinds::NodeKind;
use crate::module::text_option;
use crate::text::{contains, starts_with, text_contains, text_starts_with};
use crate::tree::{SyntaxTree, TreeView};

verus! {

/// Whether a doc comment carries one of the tags `@file`, `@fileoverview`
/// and `@module`, which make it the comment of the module.
pub open spec fn is_module_tagged(comment: Seq<char>) -> bool {
    ||| text_contains(comment, "@file"@)
    ||| text_contains(comment, "@fileoverview"@)
    ||| text_contains(comment, "@module"@)
}

/// Whether a doc comment describes the module as a whole.
pub fn is_module_jsdoc(comment: &str) -> (tagged: bool)
    ensures
        tagged == is_module_tagged(comment@),
{
    contains(comment, "@file") || contains(comment, "@fileoverview") || contains(
        comment,
        "@module",
    )
}

/// The doc comment that a node is: the text of a comment that begins with
/// `/**`.
pub open spec fn doc_comment_at(t: TreeView, node: Option<usize>) -> Option<Seq<char>> {
    match node {
        Some(i) => if i < t.nodes.len() && t.nodes[i as int].kind == NodeKind::Comment
            && text_starts_with(t.text_of(i as int), "/**"@) {
            Some(t.text_of(i as int))
        } else {
            None
        },
        None => None,
    }
}

/// The doc comment that a node is, if it is one.
pub fn get_jsdoc(tree: &SyntaxTree, node: Option<usize>) -> (comment: Option<String>)
    requires
        tree.wf(),
    ensures
        text_option(comment) == doc_comment_at(tree@, node),
{
    match node {
        Some(i) => {
            if i < tree.len() && tree.node(i).kind == NodeKind::Comment {
                let text = tree.node_text(i);
                if starts_with(text.as_str(), "/**") {
                    Some(text)
                } else {
                    None
                }
            } else {
                None
            }
        },
        None => None,
    }
}

} // verus!
