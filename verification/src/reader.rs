//! Reading the syntax tree that the parser built into a [`SyntaxTree`], as
//! the records of its nodes in the order in which a cursor numbers them.

use vstd::prelude::*;
use crate::error::ExtractionError;
use crate::records::{
    NodeFacts, NodeRecord, nodes_of_records, record_views, records_form_tree, tree_from_records,
};
use crate::tree::SyntaxTree;

verus! {

#[verifier::external_type_specification]
#[verifier::external_body]
pub struct ExParser(tree_sitter::Parser);

#[verifier::external_type_specification]
#[verifier::external_body]
pub struct ExTree(tree_sitter::Tree);

#[verifier::external_type_specification]
#[verifier::external_body]
pub struct ExNode<'tree>(tree_sitter::Node<'tree>);

#[verifier::external_type_specification]
#[verifier::external_body]
pub struct ExTreeCursor<'cursor>(tree_sitter::TreeCursor<'cursor>);

#[verifier::external_type_specification]
#[verifier::external_body]
pub struct ExParsedFile<'a>(daipendency_extractor::ParsedFile<'a>);

/// The message of the error for a source text without a valid syntax tree.
pub open spec fn parse_failure() -> Seq<char> {
    "Failed to parse source file"@
}

/// What a node holds: the records of the node itself and of all nodes
/// below it, in the order in which `tree_sitter::TreeCursor::goto_descendant`
/// numbers them for a cursor that starts at the node. The depth and the
/// field of a record are those that such a cursor gives.
pub uninterp spec fn descendants(node: tree_sitter::Node) -> Seq<NodeFacts>;

/// What a cursor walks: the records of the node at which it started and of
/// all nodes below that node, in the order in which
/// `tree_sitter::TreeCursor::goto_descendant` numbers them.
pub uninterp spec fn walked(cursor: tree_sitter::TreeCursor) -> Seq<NodeFacts>;

/// The number of the node at which a cursor stands, among those that it
/// walks.
pub uninterp spec fn place(cursor: tree_sitter::TreeCursor) -> int;

/// Calls `daipendency_extractor::ParsedFile::parse`, which parses the text
/// and refuses a tree that holds a syntax error. The one error that it
/// returns is `Malformed` with the message [`parse_failure`].
#[verifier::external_body]
fn parse_file<'a>(content: &'a str, parser: &mut tree_sitter::Parser) -> (parsed: Result<
    daipendency_extractor::ParsedFile<'a>,
    ExtractionError,
>)
    ensures
        parsed matches Err(e) ==> e matches ExtractionError::Malformed(m) && m@ == parse_failure(),
{
    match daipendency_extractor::ParsedFile::parse(content, parser) {
        Ok(file) => Ok(file),
        Err(daipendency_extractor::ExtractionError::Io(e)) => Err(ExtractionError::Io(e.to_string())),
        Err(daipendency_extractor::ExtractionError::Malformed(m)) => Err(
            ExtractionError::Malformed(m),
        ),
    }
}

/// Calls `daipendency_extractor::ParsedFile::root_node`, which gives the
/// root node of the parsed tree. Nothing is claimed of the node.
#[verifier::external_body]
fn file_root<'a>(file: &'a daipendency_extractor::ParsedFile<'a>) -> tree_sitter::Node<'a> {
    file.root_node()
}

/// Calls `tree_sitter::Parser::parse` without an earlier tree. It gives no
/// tree where the parser has no language or was stopped. Nothing is claimed
/// of the tree.
#[verifier::external_body]
fn parse_text(parser: &mut tree_sitter::Parser, content: &str) -> Option<tree_sitter::Tree> {
    parser.parse(content, None)
}

/// Calls `tree_sitter::Tree::root_node`. Nothing is claimed of the node.
#[verifier::external_body]
fn tree_root<'a>(tree: &'a tree_sitter::Tree) -> tree_sitter::Node<'a> {
    tree.root_node()
}

/// Calls `tree_sitter::Node::descendant_count`. The claim is that it gives
/// the number of records that the node holds: the node itself and all
/// nodes below it.
#[verifier::external_body]
fn descendant_count(node: &tree_sitter::Node) -> (count: usize)
    ensures
        count == descendants(*node).len(),
{
    node.descendant_count()
}

/// Calls `tree_sitter::Node::walk`. The claim is that the cursor walks what
/// the node holds and stands at the node itself, which has the number 0.
#[verifier::external_body]
fn walk<'a>(node: &tree_sitter::Node<'a>) -> (cursor: tree_sitter::TreeCursor<'a>)
    ensures
        walked(cursor) == descendants(*node),
        place(cursor) == 0,
{
    node.walk()
}

/// Calls `tree_sitter::TreeCursor::goto_descendant`. The claim is that the
/// cursor walks what it walked before and, where a node has the number
/// `index`, then stands at that node.
#[verifier::external_body]
fn goto_descendant(cursor: &mut tree_sitter::TreeCursor, index: usize)
    ensures
        walked(*final(cursor)) == walked(*old(cursor)),
        index < walked(*old(cursor)).len() ==> place(*final(cursor)) == index,
{
    cursor.goto_descendant(index)
}

/// Hands out the node at which the cursor stands as a record, by
/// `tree_sitter::TreeCursor::node`, `field_name` and `depth` and by
/// `tree_sitter::Node::kind`, `is_named`, `start_byte` and `end_byte`. The
/// claim is that this is the record with the number of the place of the
/// cursor among those that it walks.
#[verifier::external_body]
fn current_record(cursor: &tree_sitter::TreeCursor) -> (record: NodeRecord)
    ensures
        0 <= place(*cursor) < walked(*cursor).len() ==> record@ == walked(*cursor)[place(*cursor)],
{
    let node = cursor.node();
    NodeRecord {
        kind: node.kind().to_owned(),
        named: node.is_named(),
        field: cursor.field_name().map(str::to_owned),
        depth: cursor.depth() as usize,
        start: node.start_byte(),
        end: node.end_byte(),
    }
}

/// The tree over `content` that `root` holds: the tree that the records of
/// `root` and of all nodes below it stand for, read one by one in the order
/// of their numbers. `None` where those records stand for no tree over
/// `content`.
fn read_tree(content: &str, root: &tree_sitter::Node) -> (tree: Option<SyntaxTree>)
    ensures
        tree is Some <==> records_form_tree(content@, descendants(*root)),
        tree matches Some(t) ==> t.wf() && t.source() == content@ && t.nodes() == nodes_of_records(
            descendants(*root),
        ),
{
    // The records are read by one cursor, which is sent to each number in
    // turn: from 0, the root, up to the number of records that the root
    // holds.
    let count = descendant_count(root);
    let mut cursor = walk(root);
    let mut records: Vec<NodeRecord> = Vec::new();
    let mut index: usize = 0;
    while index < count
        invariant
            index <= count,
            count == descendants(*root).len(),
            walked(cursor) == descendants(*root),
            records@.len() == index,
            forall|k: int| 0 <= k < index ==> (#[trigger] records@[k])@ == descendants(*root)[k],
        decreases count - index,
    {
        goto_descendant(&mut cursor, index);
        assert(place(cursor) == index);
        let record = current_record(&cursor);
        assert(record@ == descendants(*root)[index as int]);
        records.push(record);
        index += 1;
    }
    proof {
        // every record was read at its own number
        assert(record_views(records@) =~= descendants(*root));
    }
    tree_from_records(content, &records)
}

/// The syntax tree of `content`, as `parser` builds it, syntax errors and
/// all. `None` if the parser gives no tree, or a tree whose records stand
/// for no tree over `content`.
///
/// Which tree the parser gives for a text is not stated: it depends on the
/// state of the parser (its language, its limits of time, whether it was
/// told to stop) and not on the text alone. What is returned for the tree
/// that it gives is what is read from the root of that tree, record by
/// record.
pub fn parse_unchecked(content: &str, parser: &mut tree_sitter::Parser) -> (tree: Option<SyntaxTree>)
    ensures
        tree matches Some(t) ==> t.wf() && t.source() == content@,
{
    match parse_text(parser, content) {
        Some(parsed) => {
            let root = tree_root(&parsed);
            read_tree(content, &root)
        },
        None => None,
    }
}

/// The syntax tree of `content`, as `parser` builds it.
///
/// Fails with `Malformed` and the message [`parse_failure`] if the text has
/// a syntax error or the parser gives no tree.
pub fn parse_tree(content: &str, parser: &mut tree_sitter::Parser) -> (tree: Result<
    SyntaxTree,
    ExtractionError,
>)
    ensures
        match tree {
            Ok(t) => t.wf() && t.source() == content@,
            Err(e) => e matches ExtractionError::Malformed(m) && m@ == parse_failure(),
        },
{
    match parse_file(content, parser) {
        Ok(file) => {
            let root = file_root(&file);
            match read_tree(content, &root) {
                Some(tree) => Ok(tree),
                None => Err(ExtractionError::Malformed("Failed to parse source file".to_owned())),
            }
        },
        Err(e) => Err(e),
    }
}

} // verus!
