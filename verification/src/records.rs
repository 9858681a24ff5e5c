//! What a parser says of the nodes of a tree, one record for each node, and
//! the tree that the records stand for.

use vstd::prelude::*;
use crate::kinds::{FieldName, NodeKind, field_of_name, kind_of_name};
use crate::module::text_option;
use crate::tree::{SyntaxNode, SyntaxTree, well_formed};

verus! {

/// What a parser says of one node.
#[derive(Debug, PartialEq, Eq)]
pub struct NodeRecord {
    /// The name that the grammar gives to the kind of the node.
    pub kind: String,
    /// Whether the node stands for a named rule of the grammar.
    pub named: bool,
    /// The name of the field of its parent that the node fills.
    pub field: Option<String>,
    /// How far below the root the node stands.
    pub depth: usize,
    /// The offset of the first byte of the node in the source text.
    pub start: usize,
    /// The offset after the last byte of the node in the source text.
    pub end: usize,
}

/// The value of a [`NodeRecord`].
pub struct NodeFacts {
    pub kind: Seq<char>,
    pub named: bool,
    pub field: Option<Seq<char>>,
    pub depth: usize,
    pub start: usize,
    pub end: usize,
}

impl View for NodeRecord {
    type V = NodeFacts;

    open spec fn view(&self) -> NodeFacts {
        NodeFacts {
            kind: self.kind@,
            named: self.named,
            field: text_option(self.field),
            depth: self.depth,
            start: self.start,
            end: self.end,
        }
    }
}

/// The values of a sequence of records.
pub open spec fn record_views(records: Seq<NodeRecord>) -> Seq<NodeFacts> {
    Seq::new(records.len(), |i: int| records[i]@)
}

/// The depths follow a walk of a tree: the first record is the root, at
/// depth 0, and every other record stands below the root and at most one
/// level below the record before it.
pub open spec fn depths_in_order(records: Seq<NodeFacts>) -> bool {
    forall|i: int|
        #![trigger records[i]]
        0 <= i < records.len() ==> if i == 0 {
            records[i].depth == 0
        } else {
            1 <= records[i].depth <= records[i - 1].depth + 1
        }
}

/// The last record before `i` that stands at the depth `depth`.
pub open spec fn last_at_depth(records: Seq<NodeFacts>, depth: int, i: int) -> Option<usize>
    decreases i,
{
    if i <= 0 {
        None
    } else if records[i - 1].depth == depth {
        Some((i - 1) as usize)
    } else {
        last_at_depth(records, depth, i - 1)
    }
}

/// The parent of record `i`: the last record before it that stands one
/// level higher. The root is its own parent.
pub open spec fn record_parent(records: Seq<NodeFacts>, i: int) -> usize {
    match last_at_depth(records, records[i].depth - 1, i) {
        Some(parent) => parent,
        None => 0,
    }
}

/// The node that record `i` stands for.
pub open spec fn node_of_record(records: Seq<NodeFacts>, i: int) -> SyntaxNode {
    SyntaxNode {
        kind: kind_of_name(records[i].kind),
        named: records[i].named,
        field: field_of_name(records[i].field),
        parent: record_parent(records, i),
        start: records[i].start,
        end: records[i].end,
    }
}

/// The nodes that the records stand for.
pub open spec fn nodes_of_records(records: Seq<NodeFacts>) -> Seq<SyntaxNode> {
    Seq::new(records.len(), |i: int| node_of_record(records, i))
}

/// Whether the records stand for a tree over `text`: their depths follow a
/// walk, and the nodes that they stand for form a tree over the text.
pub open spec fn records_form_tree(text: Seq<char>, records: Seq<NodeFacts>) -> bool {
    depths_in_order(records) && well_formed(text, nodes_of_records(records))
}

/// The name of the field of a record, as a text to read.
fn field_name(record: &NodeRecord) -> (name: Option<&str>)
    ensures
        match name {
            Some(n) => record@.field == Some(n@),
            None => record@.field is None,
        },
{
    match &record.field {
        Some(name) => Some(name.as_str()),
        None => None,
    }
}

/// The tree over `content` that the records stand for, if they stand for
/// one.
pub fn tree_from_records(content: &str, records: &Vec<NodeRecord>) -> (tree: Option<SyntaxTree>)
    ensures
        tree is Some <==> records_form_tree(content@, record_views(records@)),
        tree matches Some(t) ==> t.wf() && t.source() == content@ && t.nodes() == nodes_of_records(
            record_views(records@),
        ),
{
    let ghost facts = record_views(records@);
    let mut nodes: Vec<SyntaxNode> = Vec::new();
    // path[d] is the last record read at depth d
    let mut path: Vec<usize> = Vec::new();
    let mut index: usize = 0;
    while index < records.len()
        invariant
            index <= records.len(),
            facts == record_views(records@),
            nodes@.len() == index,
            forall|k: int| 0 <= k < index ==> nodes@[k] == node_of_record(facts, k),
            forall|k: int|
                #![trigger facts[k]]
                0 <= k < index ==> if k == 0 {
                    facts[k].depth == 0
                } else {
                    1 <= facts[k].depth <= facts[k - 1].depth + 1
                },
            index == 0 ==> path@.len() == 0,
            index > 0 ==> path@.len() == facts[index - 1].depth + 1,
            forall|d: int|
                0 <= d < path@.len() ==> last_at_depth(facts, d, index as int) == Some(
                    #[trigger] path@[d],
                ),
        decreases records.len() - index,
    {
        let record = &records[index];
        let depth = record.depth;
        assert(facts[index as int] == record@);
        if depth > path.len() || (depth == 0) != (index == 0) {
            assert(!depths_in_order(facts));
            return None;
        }
        let parent: usize = if depth == 0 {
            0
        } else {
            path[depth - 1]
        };
        assert(parent == record_parent(facts, index as int));
        let ghost above = path@;
        path.truncate(depth);
        path.push(index);
        assert forall|d: int| 0 <= d < path@.len() implies last_at_depth(facts, d, index + 1)
            == Some(#[trigger] path@[d]) by {
            if d < depth {
                assert(path@[d] == above[d]);
            }
        }
        nodes.push(
            SyntaxNode {
                kind: NodeKind::from_name(record.kind.as_str()),
                named: record.named,
                field: FieldName::from_name(field_name(record)),
                parent,
                start: record.start,
                end: record.end,
            },
        );
        index += 1;
    }
    assert(depths_in_order(facts));
    assert(nodes@ =~= nodes_of_records(facts));
    SyntaxTree::new(content.to_owned(), nodes)
}

} // verus!
