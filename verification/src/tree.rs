//! A plain model of the syntax tree of one source file.
//!
//! The nodes of a tree stand in one sequence, every node after its parent.
//! A node knows its kind, the field of its parent that it fills, the index
//! of its parent and the range of bytes of the source text that it covers.
//! All relations between nodes (children, siblings, ancestors) are defined
//! from the parent indices.

use vstd::prelude::*;
use crate::kinds::{FieldName, NodeKind};
use crate::text::{is_range, is_text_range, slice, text_slice};

verus! {

/// One node of a syntax tree.
#[derive(Clone, Copy, Debug, PartialEq, Eq, Structural)]
pub struct SyntaxNode {
    pub kind: NodeKind,
    /// Whether the node stands for a named rule of the grammar, not for a
    /// keyword or a punctuation mark.
    pub named: bool,
    /// The field of the parent that the node fills.
    pub field: FieldName,
    /// The index of the parent. The root, at index 0, is its own parent.
    pub parent: usize,
    /// The offset of the first byte of the node in the source text.
    pub start: usize,
    /// The offset after the last byte of the node in the source text.
    pub end: usize,
}

/// The nodes stand in the order in which a walk of the tree meets them: the
/// parent of a node is the node before it or an ancestor of that node.
#[verifier::opaque]
pub open spec fn in_walk_order(nodes: Seq<SyntaxNode>) -> bool {
    forall|i: int|
        0 < i < nodes.len() ==> is_ancestor_or_self(nodes, (#[trigger] nodes[i]).parent as int, i - 1)
}

/// The nodes form a tree over the text: there is a root, every other node
/// stands after its parent, the nodes stand in the order in which a walk of
/// the tree meets them (a node with all that is below it before the next
/// child of its parent), every node covers a proper range of the text, and
/// a later node does not begin before an earlier one.
pub open spec fn well_formed(text: Seq<char>, nodes: Seq<SyntaxNode>) -> bool {
    &&& 0 < nodes.len() <= usize::MAX
    &&& nodes[0].parent == 0
    &&& forall|i: int| 0 < i < nodes.len() ==> (#[trigger] nodes[i]).parent < i
    &&& in_walk_order(nodes)
    &&& forall|i: int|
        0 <= i < nodes.len() ==> is_text_range(
            text,
            (#[trigger] nodes[i]).start as int,
            nodes[i].end as int,
        )
    &&& forall|i: int, j: int|
        0 <= i <= j < nodes.len() ==> (#[trigger] nodes[i]).start <= (#[trigger] nodes[j]).start
}

/// Node `j` is a child of node `p`.
pub open spec fn is_child(nodes: Seq<SyntaxNode>, p: int, j: int) -> bool {
    0 < j < nodes.len() && nodes[j].parent == p
}

/// The children of `p` among the nodes before `k`, in order.
pub open spec fn children_before(nodes: Seq<SyntaxNode>, p: int, k: int) -> Seq<usize>
    decreases k,
{
    if k <= 0 {
        Seq::empty()
    } else if is_child(nodes, p, k - 1) {
        children_before(nodes, p, k - 1).push((k - 1) as usize)
    } else {
        children_before(nodes, p, k - 1)
    }
}

/// The children of `p`, in order.
pub open spec fn children_of(nodes: Seq<SyntaxNode>, p: int) -> Seq<usize> {
    children_before(nodes, p, nodes.len() as int)
}

/// The last child of `p` among the nodes before `k`.
pub open spec fn last_child_before(nodes: Seq<SyntaxNode>, p: int, k: int) -> Option<usize>
    decreases k,
{
    if k <= 0 {
        None
    } else if is_child(nodes, p, k - 1) {
        Some((k - 1) as usize)
    } else {
        last_child_before(nodes, p, k - 1)
    }
}

/// The sibling that stands directly before node `i`.
pub open spec fn prev_sibling(nodes: Seq<SyntaxNode>, i: int) -> Option<usize> {
    if 0 < i < nodes.len() {
        last_child_before(nodes, nodes[i].parent as int, i)
    } else {
        None
    }
}

/// The first named child of `p` among the nodes from `k` on.
pub open spec fn first_named_child_from(nodes: Seq<SyntaxNode>, p: int, k: int) -> Option<usize>
    decreases nodes.len() - k,
{
    if k < 0 || k >= nodes.len() {
        None
    } else if is_child(nodes, p, k) && nodes[k].named {
        Some(k as usize)
    } else {
        first_named_child_from(nodes, p, k + 1)
    }
}

/// The first named sibling that stands after node `i`.
pub open spec fn next_named_sibling(nodes: Seq<SyntaxNode>, i: int) -> Option<usize> {
    if 0 < i < nodes.len() {
        first_named_child_from(nodes, nodes[i].parent as int, i + 1)
    } else {
        None
    }
}

/// The first child of `p` among the nodes from `k` on.
pub open spec fn child_from(nodes: Seq<SyntaxNode>, p: int, k: int) -> Option<usize>
    decreases nodes.len() - k,
{
    if k < 0 || k >= nodes.len() {
        None
    } else if is_child(nodes, p, k) {
        Some(k as usize)
    } else {
        child_from(nodes, p, k + 1)
    }
}

/// The first child of `p`.
pub open spec fn first_child(nodes: Seq<SyntaxNode>, p: int) -> Option<usize> {
    child_from(nodes, p, p + 1)
}

/// Whether a node has the kind `kind` and, where `field` names one, fills
/// that field of its parent.
pub open spec fn node_is(node: SyntaxNode, kind: NodeKind, field: Option<FieldName>) -> bool {
    node.kind == kind && (field matches Some(f) ==> node.field == f)
}

/// The first child of `p` among the nodes from `k` on that has the kind
/// `kind` and, where `field` names one, fills that field.
pub open spec fn child_of_kind_from(
    nodes: Seq<SyntaxNode>,
    p: int,
    kind: NodeKind,
    field: Option<FieldName>,
    k: int,
) -> Option<usize>
    decreases nodes.len() - k,
{
    if k < 0 || k >= nodes.len() {
        None
    } else if is_child(nodes, p, k) && node_is(nodes[k], kind, field) {
        Some(k as usize)
    } else {
        child_of_kind_from(nodes, p, kind, field, k + 1)
    }
}

/// The first child of `p` that has the kind `kind` and, where `field`
/// names one, fills that field.
pub open spec fn find_child(
    nodes: Seq<SyntaxNode>,
    p: int,
    kind: NodeKind,
    field: Option<FieldName>,
) -> Option<usize> {
    child_of_kind_from(nodes, p, kind, field, p + 1)
}

/// Node `a` is a proper ancestor of node `i`.
pub open spec fn is_ancestor(nodes: Seq<SyntaxNode>, a: int, i: int) -> bool
    decreases i,
{
    if 0 < i < nodes.len() && nodes[i].parent < i {
        nodes[i].parent == a || is_ancestor(nodes, a, nodes[i].parent as int)
    } else {
        false
    }
}

/// A proper ancestor stands before its descendant.
pub proof fn lemma_ancestor_is_before(nodes: Seq<SyntaxNode>, a: int, i: int)
    requires
        is_ancestor(nodes, a, i),
    ensures
        0 <= a < i < nodes.len(),
    decreases i,
{
    if nodes[i].parent != a {
        lemma_ancestor_is_before(nodes, a, nodes[i].parent as int);
    }
}

/// Node `a` is node `i` or a proper ancestor of it.
pub open spec fn is_ancestor_or_self(nodes: Seq<SyntaxNode>, a: int, i: int) -> bool {
    a == i || is_ancestor(nodes, a, i)
}

/// An ancestor of an ancestor is an ancestor.
pub proof fn lemma_ancestor_is_transitive(nodes: Seq<SyntaxNode>, a: int, b: int, i: int)
    requires
        is_ancestor(nodes, a, b),
        is_ancestor(nodes, b, i),
    ensures
        is_ancestor(nodes, a, i),
    decreases i,
{
    if nodes[i].parent != b {
        lemma_ancestor_is_transitive(nodes, a, b, nodes[i].parent as int);
    }
}

/// What stands below a node stands together: a node after `p` that is not
/// below `p` is followed by no node below `p`.
pub proof fn lemma_subtree_is_contiguous(
    text: Seq<char>,
    nodes: Seq<SyntaxNode>,
    p: int,
    j: int,
    k: int,
)
    requires
        well_formed(text, nodes),
        0 <= p < j <= k < nodes.len(),
        !is_ancestor(nodes, p, j),
    ensures
        !is_ancestor(nodes, p, k),
    decreases k - j,
{
    if j < k {
        lemma_subtree_is_contiguous(text, nodes, p, j, k - 1);
        if is_ancestor(nodes, p, k) {
            let q = nodes[k].parent as int;
            reveal(in_walk_order);
            assert(is_ancestor_or_self(nodes, q, k - 1));
            if q == p {
                assert(is_ancestor(nodes, p, k - 1));
            } else if q == k - 1 {
                assert(is_ancestor(nodes, p, k - 1));
            } else {
                lemma_ancestor_is_transitive(nodes, p, q, k - 1);
            }
        }
    }
}

/// No child of `p` stands at `k` or after it.
pub open spec fn no_child_from(nodes: Seq<SyntaxNode>, p: int, k: int) -> bool {
    forall|j: int| k <= j < nodes.len() ==> !is_child(nodes, p, j)
}

/// No node below `p` stands at `k` or after it.
pub open spec fn nothing_below_from(nodes: Seq<SyntaxNode>, p: int, k: int) -> bool {
    forall|j: int| k <= j < nodes.len() ==> !is_ancestor(nodes, p, j)
}

/// No node from `from` up to `to` stands below `p`.
pub open spec fn nothing_below_between(nodes: Seq<SyntaxNode>, p: int, from: int, to: int) -> bool {
    forall|j: int| from <= j < to ==> !is_ancestor(nodes, p, j)
}

/// A child of a node stands below it.
pub proof fn lemma_child_is_below(text: Seq<char>, nodes: Seq<SyntaxNode>, p: int, j: int)
    requires
        well_formed(text, nodes),
        is_child(nodes, p, j),
    ensures
        is_ancestor(nodes, p, j),
{
}

/// The nodes from `from` up to `to` all stand below `p`.
pub open spec fn all_below(nodes: Seq<SyntaxNode>, p: int, from: int, to: int) -> bool {
    forall|j: int| from <= j < to ==> is_ancestor(nodes, p, j)
}

/// A child search that begins where no child stands finds none.
pub proof fn lemma_no_child_found(nodes: Seq<SyntaxNode>, p: int, k: int)
    requires
        no_child_from(nodes, p, k),
    ensures
        child_from(nodes, p, k) is None,
    decreases nodes.len() - k,
{
    if 0 <= k < nodes.len() {
        lemma_no_child_found(nodes, p, k + 1);
    }
}

/// A search for a child of a kind that begins where no child stands finds
/// none.
pub proof fn lemma_no_child_of_kind_found(
    nodes: Seq<SyntaxNode>,
    p: int,
    kind: NodeKind,
    field: Option<FieldName>,
    k: int,
)
    requires
        no_child_from(nodes, p, k),
    ensures
        child_of_kind_from(nodes, p, kind, field, k) is None,
    decreases nodes.len() - k,
{
    if 0 <= k < nodes.len() {
        lemma_no_child_of_kind_found(nodes, p, kind, field, k + 1);
    }
}

/// A search for a named child that begins where no child stands finds
/// none.
pub proof fn lemma_no_named_child_found(nodes: Seq<SyntaxNode>, p: int, k: int)
    requires
        no_child_from(nodes, p, k),
    ensures
        first_named_child_from(nodes, p, k) is None,
    decreases nodes.len() - k,
{
    if 0 <= k < nodes.len() {
        lemma_no_named_child_found(nodes, p, k + 1);
    }
}

/// The children before a place after which no child stands are all the
/// children.
pub proof fn lemma_children_end(nodes: Seq<SyntaxNode>, p: int, from: int, k: int)
    requires
        no_child_from(nodes, p, from),
        0 <= from <= k <= nodes.len(),
    ensures
        children_before(nodes, p, k) == children_before(nodes, p, from),
    decreases k - from,
{
    if from < k {
        lemma_children_end(nodes, p, from, k - 1);
    }
}

/// No child of `p` stands at `p` or before it.
pub proof fn lemma_children_begin(text: Seq<char>, nodes: Seq<SyntaxNode>, p: int, k: int)
    requires
        well_formed(text, nodes),
        0 <= k <= p + 1,
        k <= nodes.len(),
    ensures
        children_before(nodes, p, k) == Seq::<usize>::empty(),
    decreases k,
{
    if k > 0 {
        lemma_children_begin(text, nodes, p, k - 1);
    }
}

/// A node after `p` whose parent stands before `p` is not below `p`, and
/// neither is any node after it.
pub proof fn lemma_subtree_has_ended(text: Seq<char>, nodes: Seq<SyntaxNode>, p: int, k: int)
    requires
        well_formed(text, nodes),
        0 <= p < k < nodes.len(),
        nodes[k].parent < p,
    ensures
        nothing_below_from(nodes, p, k),
        no_child_from(nodes, p, k),
{
    if is_ancestor(nodes, p, k) {
        lemma_ancestor_is_before(nodes, p, nodes[k].parent as int);
    }
    assert forall|j: int| k <= j < nodes.len() implies !is_ancestor(nodes, p, j) by {
        lemma_subtree_is_contiguous(text, nodes, p, k, j);
    }
    assert forall|j: int| k <= j < nodes.len() implies !is_child(nodes, p, j) by {
        if is_child(nodes, p, j) {
            assert(nodes[j].parent < j);
            assert(is_ancestor(nodes, p, j));
        }
    }
}

/// No child of `p` stands before the node after `p`.
pub proof fn lemma_no_child_before(text: Seq<char>, nodes: Seq<SyntaxNode>, p: int, k: int)
    requires
        well_formed(text, nodes),
        k <= p + 1,
        k <= nodes.len(),
    ensures
        last_child_before(nodes, p, k) is None,
    decreases k,
{
    if k > 0 {
        lemma_no_child_before(text, nodes, p, k - 1);
    }
}

/// The last child before a place stands before that place.
pub proof fn lemma_last_child_before(nodes: Seq<SyntaxNode>, p: int, k: int)
    requires
        nodes.len() <= usize::MAX,
        k <= nodes.len(),
    ensures
        last_child_before(nodes, p, k) matches Some(b) ==> 0 < b < k,
    decreases k,
{
    if k > 0 && !is_child(nodes, p, k - 1) {
        lemma_last_child_before(nodes, p, k - 1);
    }
}

/// The sibling that stands before a node has a smaller index.
pub proof fn lemma_prev_sibling_is_before(nodes: Seq<SyntaxNode>, i: int)
    requires
        nodes.len() <= usize::MAX,
    ensures
        prev_sibling(nodes, i) matches Some(b) ==> 0 < b < i,
{
    if 0 < i < nodes.len() {
        lemma_last_child_before(nodes, nodes[i].parent as int, i);
    }
}

/// The text that node `i` covers.
pub open spec fn node_text(text: Seq<char>, nodes: Seq<SyntaxNode>, i: int) -> Seq<char> {
    text_slice(text, nodes[i].start as int, nodes[i].end as int)
}

/// The value of a [`SyntaxTree`]: a source text and the nodes over it.
pub struct TreeView {
    pub text: Seq<char>,
    pub nodes: Seq<SyntaxNode>,
}

impl TreeView {
    /// Whether the nodes form a tree over the text.
    pub open spec fn wf(self) -> bool {
        well_formed(self.text, self.nodes)
    }

    /// The text that node `i` covers.
    pub open spec fn text_of(self, i: int) -> Seq<char> {
        node_text(self.text, self.nodes, i)
    }
}

/// The syntax tree of a source text.
pub struct SyntaxTree {
    text: String,
    nodes: Vec<SyntaxNode>,
}

/// Whether node `a` is a proper ancestor of node `i`.
fn climbs_to(nodes: &Vec<SyntaxNode>, a: usize, i: usize) -> (r: bool)
    ensures
        r == is_ancestor(nodes@, a as int, i as int),
{
    if i >= nodes.len() {
        return false;
    }
    let mut k: usize = i;
    loop
        invariant
            k < nodes.len(),
            is_ancestor(nodes@, a as int, k as int) == is_ancestor(nodes@, a as int, i as int),
        decreases k,
    {
        if k == 0 {
            return false;
        }
        let p = nodes[k].parent;
        if p >= k {
            return false;
        }
        if p == a {
            return true;
        }
        k = p;
    }
}

impl View for SyntaxTree {
    type V = TreeView;

    open spec fn view(&self) -> TreeView {
        TreeView { text: self.source(), nodes: self.nodes() }
    }
}

impl SyntaxTree {
    /// The source text.
    pub closed spec fn source(&self) -> Seq<char> {
        self.text@
    }

    /// The nodes, every node after its parent.
    pub closed spec fn nodes(&self) -> Seq<SyntaxNode> {
        self.nodes@
    }

    /// Whether the nodes form a tree over the source text.
    pub open spec fn wf(&self) -> bool {
        well_formed(self.source(), self.nodes())
    }

    /// The text that node `i` covers.
    pub open spec fn text_of(&self, i: int) -> Seq<char> {
        node_text(self.source(), self.nodes(), i)
    }

    /// The tree of `nodes` over `text`, if they form one.
    pub fn new(text: String, nodes: Vec<SyntaxNode>) -> (tree: Option<SyntaxTree>)
        ensures
            tree is Some <==> well_formed(text@, nodes@),
            tree matches Some(t) ==> t.source() == text@ && t.nodes() == nodes@ && t.wf(),
    {
        if nodes.len() == 0 || nodes[0].parent != 0 {
            return None;
        }
        let mut i: usize = 0;
        while i < nodes.len()
            invariant
                i <= nodes.len(),
                nodes.len() > 0,
                nodes@[0].parent == 0,
                forall|k: int| 0 < k < i ==> (#[trigger] nodes@[k]).parent < k,
                forall|k: int|
                    0 < k < i ==> is_ancestor_or_self(
                        nodes@,
                        (#[trigger] nodes@[k]).parent as int,
                        k - 1,
                    ),
                forall|k: int|
                    0 <= k < i ==> is_text_range(
                        text@,
                        (#[trigger] nodes@[k]).start as int,
                        nodes@[k].end as int,
                    ),
                forall|k: int, j: int|
                    0 <= k <= j < i ==> (#[trigger] nodes@[k]).start <= (#[trigger] nodes@[
                        j
                    ]).start,
            decreases nodes.len() - i,
        {
            let node = nodes[i];
            if i > 0 && (node.parent >= i || nodes[i - 1].start > node.start) {
                return None;
            }
            if i > 0 && node.parent != i - 1 && !climbs_to(&nodes, node.parent, i - 1) {
                proof {
                    reveal(in_walk_order);
                }
                return None;
            }
            if !is_range(text.as_str(), node.start, node.end) {
                return None;
            }
            proof {
                assert forall|k: int, j: int| 0 <= k <= j < i + 1 implies (#[trigger] nodes@[k]).start
                    <= (#[trigger] nodes@[j]).start by {
                    if j == i && k < i {
                        assert(nodes@[k].start <= nodes@[i - 1].start);
                    }
                }
            }
            i += 1;
        }
        proof {
            reveal(in_walk_order);
        }
        Some(SyntaxTree { text, nodes })
    }

    /// The number of nodes.
    pub fn len(&self) -> (n: usize)
        ensures
            n == self.nodes().len(),
    {
        self.nodes.len()
    }

    /// Node `i`.
    pub fn node(&self, i: usize) -> (node: SyntaxNode)
        requires
            i < self.nodes().len(),
        ensures
            node == self.nodes()[i as int],
    {
        self.nodes[i]
    }

    /// The source text.
    pub fn text(&self) -> (text: &str)
        ensures
            text@ == self.source(),
    {
        self.text.as_str()
    }

    /// The text that node `i` covers.
    pub fn node_text(&self, i: usize) -> (text: String)
        requires
            self.wf(),
            i < self.nodes().len(),
        ensures
            text@ == self.text_of(i as int),
    {
        let node = self.nodes[i];
        slice(self.text.as_str(), node.start, node.end)
    }

    /// The children of node `p`, in order.
    pub fn children(&self, p: usize) -> (kids: Vec<usize>)
        requires
            self.wf(),
        ensures
            kids@ == children_of(self.nodes(), p as int),
    {
        let mut kids: Vec<usize> = Vec::new();
        if p >= self.nodes.len() {
            proof {
                lemma_children_begin(self.text@, self.nodes@, p as int, self.nodes@.len() as int);
            }
            return kids;
        }
        let mut k: usize = p + 1;
        proof {
            lemma_children_begin(self.text@, self.nodes@, p as int, k as int);
        }
        while k < self.nodes.len()
            invariant
                self.wf(),
                p < k <= self.nodes.len(),
                kids@ == children_before(self.nodes@, p as int, k as int),
            decreases self.nodes.len() - k,
        {
            let q = self.nodes[k].parent;
            if q < p {
                proof {
                    lemma_subtree_has_ended(self.text@, self.nodes@, p as int, k as int);
                    lemma_children_end(
                        self.nodes@,
                        p as int,
                        k as int,
                        self.nodes@.len() as int,
                    );
                }
                return kids;
            }
            if q == p {
                kids.push(k);
            }
            k += 1;
        }
        kids
    }

    /// The sibling that stands directly before node `i`.
    pub fn prev_sibling(&self, i: usize) -> (sibling: Option<usize>)
        requires
            self.wf(),
        ensures
            sibling == prev_sibling(self.nodes(), i as int),
            sibling matches Some(b) ==> 0 < b < i,
    {
        if i == 0 || i >= self.nodes.len() {
            return None;
        }
        let p = self.nodes[i].parent;
        let mut k: usize = i;
        while k > p + 1
            invariant
                self.wf(),
                0 < i,
                p < k <= i < self.nodes.len(),
                p == self.nodes@[i as int].parent,
                last_child_before(self.nodes@, p as int, k as int) == last_child_before(
                    self.nodes@,
                    p as int,
                    i as int,
                ),
            decreases k,
        {
            if self.nodes[k - 1].parent == p {
                return Some(k - 1);
            }
            k -= 1;
        }
        proof {
            lemma_no_child_before(self.text@, self.nodes@, p as int, k as int);
        }
        None
    }

    /// The first named sibling that stands after node `i`.
    pub fn next_named_sibling(&self, i: usize) -> (sibling: Option<usize>)
        requires
            self.wf(),
        ensures
            sibling == next_named_sibling(self.nodes(), i as int),
            sibling matches Some(b) ==> i < b < self.nodes().len(),
    {
        if i == 0 || i >= self.nodes.len() {
            return None;
        }
        let p = self.nodes[i].parent;
        let mut k: usize = i + 1;
        while k < self.nodes.len()
            invariant
                self.wf(),
                0 < i < k <= self.nodes.len(),
                p == self.nodes@[i as int].parent,
                first_named_child_from(self.nodes@, p as int, k as int) == first_named_child_from(
                    self.nodes@,
                    p as int,
                    i + 1,
                ),
            decreases self.nodes.len() - k,
        {
            let node = self.nodes[k];
            if node.parent < p {
                proof {
                    lemma_subtree_has_ended(self.text@, self.nodes@, p as int, k as int);
                    lemma_no_named_child_found(self.nodes@, p as int, k as int);
                }
                return None;
            }
            if node.parent == p && node.named {
                return Some(k);
            }
            k += 1;
        }
        None
    }

    /// The first child of `p` among the nodes from `k` on.
    pub fn child_from(&self, p: usize, k: usize) -> (child: Option<usize>)
        requires
            self.wf(),
        ensures
            child == child_from(self.nodes(), p as int, k as int),
            child matches Some(c) ==> k <= c && is_child(self.nodes(), p as int, c as int),
    {
        let mut j: usize = k;
        while j < self.nodes.len()
            invariant
                self.wf(),
                k <= j,
                child_from(self.nodes@, p as int, j as int) == child_from(
                    self.nodes@,
                    p as int,
                    k as int,
                ),
            decreases self.nodes.len() - j,
        {
            let q = self.nodes[j].parent;
            if j > p && q < p {
                proof {
                    lemma_subtree_has_ended(self.text@, self.nodes@, p as int, j as int);
                    lemma_no_child_found(self.nodes@, p as int, j as int);
                }
                return None;
            }
            if j > 0 && q == p {
                return Some(j);
            }
            j += 1;
        }
        None
    }

    /// The first child of `p`.
    pub fn first_child(&self, p: usize) -> (child: Option<usize>)
        requires
            self.wf(),
        ensures
            child == first_child(self.nodes(), p as int),
            child matches Some(c) ==> is_child(self.nodes(), p as int, c as int),
    {
        if p >= self.nodes.len() {
            return None;
        }
        self.child_from(p, p + 1)
    }

    /// The first child of `p` among the nodes from `k` on that has the kind
    /// `kind` and, where `field` names one, fills that field.
    pub fn child_of_kind_from(
        &self,
        p: usize,
        kind: NodeKind,
        field: Option<FieldName>,
        k: usize,
    ) -> (child: Option<usize>)
        requires
            self.wf(),
        ensures
            child == child_of_kind_from(self.nodes(), p as int, kind, field, k as int),
            child matches Some(c) ==> k <= c && is_child(self.nodes(), p as int, c as int)
                && node_is(self.nodes()[c as int], kind, field),
    {
        let mut j: usize = k;
        while j < self.nodes.len()
            invariant
                self.wf(),
                k <= j,
                child_of_kind_from(self.nodes@, p as int, kind, field, j as int)
                    == child_of_kind_from(self.nodes@, p as int, kind, field, k as int),
            decreases self.nodes.len() - j,
        {
            let node = self.nodes[j];
            if j > p && node.parent < p {
                proof {
                    lemma_subtree_has_ended(self.text@, self.nodes@, p as int, j as int);
                    lemma_no_child_of_kind_found(self.nodes@, p as int, kind, field, j as int);
                }
                return None;
            }
            let in_field = match field {
                Some(f) => node.field == f,
                None => true,
            };
            if j > 0 && node.parent == p && node.kind == kind && in_field {
                return Some(j);
            }
            j += 1;
        }
        None
    }

    /// The first child of `p` that has the kind `kind` and, where `field`
    /// names one, fills that field.
    pub fn find_child(&self, p: usize, kind: NodeKind, field: Option<FieldName>) -> (child: Option<
        usize,
    >)
        requires
            self.wf(),
        ensures
            child == find_child(self.nodes(), p as int, kind, field),
            child matches Some(c) ==> is_child(self.nodes(), p as int, c as int) && node_is(
                self.nodes()[c as int],
                kind,
                field,
            ),
    {
        if p >= self.nodes.len() {
            return None;
        }
        self.child_of_kind_from(p, kind, field, p + 1)
    }

    /// Whether node `a` is a proper ancestor of node `i`.
    pub fn is_ancestor(&self, a: usize, i: usize) -> (r: bool)
        ensures
            r == is_ancestor(self.nodes(), a as int, i as int),
    {
        climbs_to(&self.nodes, a, i)
    }

    /// The places between which the nodes below `p` stand: the nodes from
    /// the first place up to the second stand below `p`, and no other node
    /// does.
    pub fn below(&self, p: usize) -> (range: (usize, usize))
        requires
            self.wf(),
        ensures
            range.0 <= range.1 <= self.nodes().len(),
            p < self.nodes().len() ==> range.0 == p + 1,
            all_below(self.nodes(), p as int, range.0 as int, range.1 as int),
            nothing_below_between(self.nodes(), p as int, 0, range.0 as int),
            nothing_below_between(
                self.nodes(),
                p as int,
                range.1 as int,
                self.nodes().len() as int,
            ),
    {
        proof {
            assert forall|j: int| 0 <= j <= p implies !is_ancestor(self.nodes@, p as int, j) by {
                if is_ancestor(self.nodes@, p as int, j) {
                    lemma_ancestor_is_before(self.nodes@, p as int, j);
                }
            }
        }
        if p >= self.nodes.len() {
            (0, 0)
        } else {
            (p + 1, self.subtree_end(p))
        }
    }

    /// The place after the last node below `p`: the nodes between `p` and
    /// it stand below `p`, and no node from it on does.
    pub fn subtree_end(&self, p: usize) -> (end: usize)
        requires
            self.wf(),
            p < self.nodes().len(),
        ensures
            p < end <= self.nodes().len(),
            all_below(self.nodes(), p as int, p + 1, end as int),
            nothing_below_from(self.nodes(), p as int, end as int),
            no_child_from(self.nodes(), p as int, end as int),
    {
        let mut k: usize = p + 1;
        while k < self.nodes.len()
            invariant
                self.wf(),
                p < k <= self.nodes.len(),
                all_below(self.nodes@, p as int, p + 1, k as int),
            decreases self.nodes.len() - k,
        {
            let q = self.nodes[k].parent;
            if q < p {
                proof {
                    lemma_subtree_has_ended(self.text@, self.nodes@, p as int, k as int);
                }
                return k;
            }
            proof {
                if q != p {
                    assert(is_ancestor(self.nodes@, p as int, q as int));
                }
                assert(is_ancestor(self.nodes@, p as int, k as int));
            }
            k += 1;
        }
        k
    }
}

} // verus!
