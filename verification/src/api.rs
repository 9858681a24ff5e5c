//! The exported declarations of a file, gathered into namespaces.
//!
//! Every export statement gives the declarations that it holds to the first
//! namespace, which stands for the library itself, each with the text of
//! the whole statement; an exported namespace opens a namespace of its own,
//! which stays empty.

use vstd::prelude::*;
use crate::error::ExtractionError;
use crate::kinds::NodeKind;
use crate::module::{Symbol, clone_text_option, text_option};
use crate::reader::parse_unchecked;
use crate::tree::{
    SyntaxNode, SyntaxTree, TreeView, is_child, lemma_child_is_below, lemma_subtree_has_ended,
    no_child_from, nothing_below_between,
};

verus! {

/// A namespace of a library with the symbols that it holds.
#[derive(Debug, PartialEq, Eq, Hash)]
pub struct Namespace {
    pub name: String,
    pub symbols: Vec<Symbol>,
    pub doc_comment: Option<String>,
}

/// The value of a [`Namespace`]. A symbol is its name and its source text.
pub struct NamespaceView {
    pub name: Seq<char>,
    pub symbols: Seq<(Seq<char>, Seq<char>)>,
    pub doc_comment: Option<Seq<char>>,
}

/// The values of a sequence of symbols.
pub open spec fn symbol_pairs(symbols: Seq<Symbol>) -> Seq<(Seq<char>, Seq<char>)> {
    Seq::new(symbols.len(), |i: int| (symbols[i].name@, symbols[i].source_code@))
}

impl View for Namespace {
    type V = NamespaceView;

    open spec fn view(&self) -> NamespaceView {
        NamespaceView {
            name: self.name@,
            symbols: symbol_pairs(self.symbols@),
            doc_comment: text_option(self.doc_comment),
        }
    }
}

impl Clone for Namespace {
    fn clone(&self) -> (copy: Namespace)
        ensures
            copy@ == self@,
    {
        let mut symbols: Vec<Symbol> = Vec::new();
        let mut i: usize = 0;
        while i < self.symbols.len()
            invariant
                i <= self.symbols.len(),
                symbols@.len() == i,
                forall|k: int|
                    0 <= k < i ==> symbols@[k].name@ == self.symbols@[k].name@
                        && symbols@[k].source_code@ == self.symbols@[k].source_code@,
            decreases self.symbols.len() - i,
        {
            symbols.push(self.symbols[i].clone());
            i += 1;
        }
        assert(symbol_pairs(symbols@) =~= symbol_pairs(self.symbols@));
        Namespace {
            name: self.name.clone(),
            symbols,
            doc_comment: clone_text_option(&self.doc_comment),
        }
    }
}

/// The values of a sequence of namespaces.
pub open spec fn namespace_views(namespaces: Seq<Namespace>) -> Seq<NamespaceView> {
    Seq::new(namespaces.len(), |i: int| namespaces[i]@)
}

/// The namespaces gathered so far, and the message of the failure that
/// ended the gathering, if one did.
pub struct Gathered {
    pub namespaces: Seq<NamespaceView>,
    pub failure: Option<Seq<char>>,
}

/// The message for a declaration without a name.
pub open spec fn unnamed_declaration() -> Seq<char> {
    "Declaration without name"@
}

/// The message for a variable without a name.
pub open spec fn unnamed_variable() -> Seq<char> {
    "Variable without name"@
}

/// The message for a namespace without a name.
pub open spec fn unnamed_namespace() -> Seq<char> {
    "Namespace without name"@
}

/// The message for a text that the parser gives no tree for.
pub open spec fn no_tree() -> Seq<char> {
    "Failed to parse source"@
}

/// Whether a node is an identifier or a type identifier.
pub open spec fn is_name(node: SyntaxNode) -> bool {
    node.kind == NodeKind::Identifier || node.kind == NodeKind::TypeIdentifier
}

/// The first child of `p` from `k` on that is an identifier or a type
/// identifier.
pub open spec fn name_from(nodes: Seq<SyntaxNode>, p: int, k: int) -> Option<usize>
    decreases nodes.len() - k,
{
    if k < 0 || k >= nodes.len() {
        None
    } else if is_child(nodes, p, k) && is_name(nodes[k]) {
        Some(k as usize)
    } else {
        name_from(nodes, p, k + 1)
    }
}

/// The name of the declaration `p`: the text of its first child that is an
/// identifier or a type identifier.
pub open spec fn declaration_name(t: TreeView, p: int) -> Option<Seq<char>> {
    match name_from(t.nodes, p, p + 1) {
        Some(name) => Some(t.text_of(name as int)),
        None => None,
    }
}

/// The kinds of declaration that an export statement gives to the library.
pub open spec fn is_exportable(kind: NodeKind) -> bool {
    ||| kind == NodeKind::EnumDeclaration
    ||| kind == NodeKind::InterfaceDeclaration
    ||| kind == NodeKind::ClassDeclaration
    ||| kind == NodeKind::FunctionDeclaration
    ||| kind == NodeKind::TypeAliasDeclaration
}

/// The namespaces with one more symbol in the first of them.
pub open spec fn with_symbol(
    namespaces: Seq<NamespaceView>,
    name: Seq<char>,
    source_code: Seq<char>,
) -> Seq<NamespaceView> {
    namespaces.update(
        0,
        NamespaceView {
            name: namespaces[0].name,
            symbols: namespaces[0].symbols.push((name, source_code)),
            doc_comment: namespaces[0].doc_comment,
        },
    )
}

/// The namespaces with one more, empty namespace at the end.
pub open spec fn with_namespace(namespaces: Seq<NamespaceView>, name: Seq<char>) -> Seq<
    NamespaceView,
> {
    namespaces.push(NamespaceView { name, symbols: Seq::empty(), doc_comment: None })
}

/// What is gathered once the variable declarators before `k` among the
/// children of the lexical declaration `declaration` have given their
/// names, each with the text of the export statement `statement`.
pub open spec fn variables_before(
    t: TreeView,
    statement: int,
    declaration: int,
    k: int,
    start: Gathered,
) -> Gathered
    decreases k,
{
    if k <= 0 {
        start
    } else {
        let before = variables_before(t, statement, declaration, k - 1, start);
        if before.failure is Some {
            before
        } else if is_child(t.nodes, declaration, k - 1) && t.nodes[k - 1].kind
            == NodeKind::VariableDeclarator {
            match declaration_name(t, k - 1) {
                Some(name) => Gathered {
                    namespaces: with_symbol(before.namespaces, name, t.text_of(statement)),
                    failure: None,
                },
                None => Gathered {
                    namespaces: before.namespaces,
                    failure: Some(unnamed_variable()),
                },
            }
        } else {
            before
        }
    }
}

/// What is gathered once the child `child` of the export statement
/// `statement` has given what it declares.
pub open spec fn exported_child(t: TreeView, statement: int, child: int, start: Gathered) -> Gathered {
    let kind = t.nodes[child].kind;
    if is_exportable(kind) {
        match declaration_name(t, child) {
            Some(name) => Gathered {
                namespaces: with_symbol(start.namespaces, name, t.text_of(statement)),
                failure: None,
            },
            None => Gathered { namespaces: start.namespaces, failure: Some(unnamed_declaration()) },
        }
    } else if kind == NodeKind::LexicalDeclaration {
        variables_before(t, statement, child, t.nodes.len() as int, start)
    } else if kind == NodeKind::InternalModule {
        match declaration_name(t, child) {
            Some(name) => Gathered {
                namespaces: with_namespace(start.namespaces, name),
                failure: None,
            },
            None => Gathered { namespaces: start.namespaces, failure: Some(unnamed_namespace()) },
        }
    } else {
        start
    }
}

/// What is gathered once the children before `k` of the export statement
/// `statement` have given what they declare.
pub open spec fn exported_before(t: TreeView, statement: int, k: int, start: Gathered) -> Gathered
    decreases k,
{
    if k <= 0 {
        start
    } else {
        let before = exported_before(t, statement, k - 1, start);
        if before.failure is Some {
            before
        } else if is_child(t.nodes, statement, k - 1) {
            exported_child(t, statement, k - 1, before)
        } else {
            before
        }
    }
}

/// What is gathered once the children before `k` of `node` have been gone
/// through, each with all that stands below it.
pub open spec fn children_gathered_before(t: TreeView, node: int, k: int, start: Gathered) -> Gathered
    decreases t.nodes.len() - node, k,
{
    if k <= 0 || k > t.nodes.len() {
        start
    } else {
        let before = children_gathered_before(t, node, k - 1, start);
        if before.failure is Some {
            before
        } else if is_child(t.nodes, node, k - 1) && node < k - 1 {
            gathered(t, k - 1, before)
        } else {
            before
        }
    }
}

/// What is gathered once `node` has been gone through with all that stands
/// below it: what the node itself gives, if it is an export statement, and
/// then what its children give, in order. The first failure ends it.
pub open spec fn gathered(t: TreeView, node: int, start: Gathered) -> Gathered
    decreases t.nodes.len() - node, t.nodes.len() + 1,
{
    let own = if t.nodes[node].kind == NodeKind::ExportStatement {
        exported_before(t, node, t.nodes.len() as int, start)
    } else {
        start
    };
    if own.failure is Some {
        own
    } else {
        children_gathered_before(t, node, t.nodes.len() as int, own)
    }
}

/// A search for a name that begins where no child stands finds none.
pub proof fn lemma_no_name_found(nodes: Seq<SyntaxNode>, p: int, k: int)
    requires
        no_child_from(nodes, p, k),
    ensures
        name_from(nodes, p, k) is None,
    decreases nodes.len() - k,
{
    if 0 <= k < nodes.len() {
        lemma_no_name_found(nodes, p, k + 1);
    }
}

/// Nodes that do not stand below a lexical declaration give it no
/// variable.
pub proof fn lemma_variables_skip(
    t: TreeView,
    statement: int,
    declaration: int,
    a: int,
    b: int,
    start: Gathered,
)
    requires
        t.wf(),
        0 <= a <= b <= t.nodes.len(),
        nothing_below_between(t.nodes, declaration, a, b),
    ensures
        variables_before(t, statement, declaration, b, start) == variables_before(
            t,
            statement,
            declaration,
            a,
            start,
        ),
    decreases b - a,
{
    if a < b {
        lemma_variables_skip(t, statement, declaration, a, b - 1, start);
        if is_child(t.nodes, declaration, b - 1) {
            lemma_child_is_below(t.text, t.nodes, declaration, b - 1);
        }
    }
}

/// Nodes that do not stand below an export statement give it nothing to
/// export.
pub proof fn lemma_exported_skip(t: TreeView, statement: int, a: int, b: int, start: Gathered)
    requires
        t.wf(),
        0 <= a <= b <= t.nodes.len(),
        nothing_below_between(t.nodes, statement, a, b),
    ensures
        exported_before(t, statement, b, start) == exported_before(t, statement, a, start),
    decreases b - a,
{
    if a < b {
        lemma_exported_skip(t, statement, a, b - 1, start);
        if is_child(t.nodes, statement, b - 1) {
            lemma_child_is_below(t.text, t.nodes, statement, b - 1);
        }
    }
}

/// Nodes that do not stand below a node are no children of it to go
/// through.
pub proof fn lemma_children_gathered_skip(t: TreeView, node: int, a: int, b: int, start: Gathered)
    requires
        t.wf(),
        0 <= a <= b <= t.nodes.len(),
        nothing_below_between(t.nodes, node, a, b),
    ensures
        children_gathered_before(t, node, b, start) == children_gathered_before(
            t,
            node,
            a,
            start,
        ),
    decreases b - a,
{
    if a < b {
        lemma_children_gathered_skip(t, node, a, b - 1, start);
        if is_child(t.nodes, node, b - 1) {
            lemma_child_is_below(t.text, t.nodes, node, b - 1);
        }
    }
}

/// The name of the declaration `p`.
pub fn get_declaration_name(tree: &SyntaxTree, p: usize) -> (name: Option<String>)
    requires
        tree.wf(),
        p < tree.nodes().len(),
    ensures
        text_option(name) == declaration_name(tree@, p as int),
{
    let mut k: usize = p + 1;
    while k < tree.len()
        invariant
            tree.wf(),
            p < k,
            name_from(tree.nodes(), p as int, k as int) == name_from(
                tree.nodes(),
                p as int,
                p + 1,
            ),
        decreases tree.nodes().len() - k,
    {
        let node = tree.node(k);
        if node.parent < p {
            proof {
                lemma_subtree_has_ended(tree@.text, tree.nodes(), p as int, k as int);
                lemma_no_name_found(tree.nodes(), p as int, k as int);
            }
            return None;
        }
        if node.parent == p && (node.kind == NodeKind::Identifier || node.kind
            == NodeKind::TypeIdentifier) {
            return Some(tree.node_text(k));
        }
        k += 1;
    }
    None
}

/// Adds a symbol to the first namespace.
fn add_symbol(namespaces: &mut Vec<Namespace>, name: String, source_code: String)
    requires
        old(namespaces)@.len() > 0,
    ensures
        final(namespaces)@.len() == old(namespaces)@.len(),
        namespace_views(final(namespaces)@) == with_symbol(
            namespace_views(old(namespaces)@),
            name@,
            source_code@,
        ),
{
    let ghost before = namespace_views(namespaces@);
    let ghost entries = namespaces@[0].symbols@;
    let ghost entry = (name@, source_code@);
    let mut head = namespaces.remove(0);
    head.symbols.push(Symbol { name, source_code });
    assert(symbol_pairs(head.symbols@) =~= symbol_pairs(entries).push(entry));
    namespaces.insert(0, head);
    assert(namespace_views(namespaces@) =~= with_symbol(before, entry.0, entry.1));
}

/// Adds an empty namespace at the end.
fn add_namespace(namespaces: &mut Vec<Namespace>, name: String)
    ensures
        final(namespaces)@.len() == old(namespaces)@.len() + 1,
        namespace_views(final(namespaces)@) == with_namespace(
            namespace_views(old(namespaces)@),
            name@,
        ),
{
    let ghost before = namespace_views(namespaces@);
    let ghost view = name@;
    let namespace = Namespace { name, symbols: Vec::new(), doc_comment: None };
    assert(namespace@.symbols =~= Seq::empty());
    namespaces.push(namespace);
    assert(namespace_views(namespaces@) =~= with_namespace(before, view));
}

/// The state in which `namespaces` have been gathered without a failure.
pub open spec fn gathered_so_far(namespaces: Seq<Namespace>) -> Gathered {
    Gathered { namespaces: namespace_views(namespaces), failure: None }
}

/// Whether a result and the namespaces left behind are what `outcome` says:
/// the namespaces are those gathered, and the result is the failure, as a
/// `Malformed` error with its message, or `Ok` where there is none.
pub open spec fn is_outcome(
    result: Result<(), ExtractionError>,
    namespaces: Seq<Namespace>,
    outcome: Gathered,
) -> bool {
    &&& namespace_views(namespaces) == outcome.namespaces
    &&& match result {
        Ok(_) => outcome.failure is None,
        Err(e) => e matches ExtractionError::Malformed(message) && outcome.failure == Some(
            message@,
        ),
    }
}

/// Once the variables have failed, nothing more is gathered from them.
pub proof fn lemma_variables_failure_stays(
    t: TreeView,
    statement: int,
    declaration: int,
    k: int,
    j: int,
    start: Gathered,
)
    requires
        k <= j,
        variables_before(t, statement, declaration, k, start).failure is Some,
    ensures
        variables_before(t, statement, declaration, j, start) == variables_before(
            t,
            statement,
            declaration,
            k,
            start,
        ),
    decreases j - k,
{
    if k < j {
        lemma_variables_failure_stays(t, statement, declaration, k, j - 1, start);
    }
}

/// Once an export statement has failed, nothing more is gathered from it.
pub proof fn lemma_exported_failure_stays(t: TreeView, statement: int, k: int, j: int, start: Gathered)
    requires
        k <= j,
        exported_before(t, statement, k, start).failure is Some,
    ensures
        exported_before(t, statement, j, start) == exported_before(t, statement, k, start),
    decreases j - k,
{
    if k < j {
        lemma_exported_failure_stays(t, statement, k, j - 1, start);
    }
}

/// Once a child has failed, nothing more is gathered from the children
/// after it.
pub proof fn lemma_children_failure_stays(t: TreeView, node: int, k: int, j: int, start: Gathered)
    requires
        0 <= k <= j <= t.nodes.len(),
        children_gathered_before(t, node, k, start).failure is Some,
    ensures
        children_gathered_before(t, node, j, start) == children_gathered_before(
            t,
            node,
            k,
            start,
        ),
    decreases j - k,
{
    if k < j {
        lemma_children_failure_stays(t, node, k, j - 1, start);
    }
}

/// Gives the names of the variable declarators of the lexical declaration
/// `declaration` to the first namespace.
fn add_variables(
    tree: &SyntaxTree,
    statement: usize,
    declaration: usize,
    namespaces: &mut Vec<Namespace>,
) -> (result: Result<(), ExtractionError>)
    requires
        tree.wf(),
        statement < tree.nodes().len(),
        old(namespaces)@.len() > 0,
    ensures
        final(namespaces)@.len() > 0,
        is_outcome(
            result,
            final(namespaces)@,
            variables_before(
                tree@,
                statement as int,
                declaration as int,
                tree.nodes().len() as int,
                gathered_so_far(old(namespaces)@),
            ),
        ),
{
    let ghost start = gathered_so_far(namespaces@);
    let ghost t = tree@;
    let (first, end) = tree.below(declaration);
    let mut k: usize = first;
    proof {
        lemma_variables_skip(t, statement as int, declaration as int, 0, first as int, start);
        lemma_variables_skip(
            t,
            statement as int,
            declaration as int,
            end as int,
            t.nodes.len() as int,
            start,
        );
    }
    while k < end
        invariant
            tree.wf(),
            t == tree@,
            start == gathered_so_far(old(namespaces)@),
            statement < tree.nodes().len(),
            k <= end <= tree.nodes().len(),
            namespaces@.len() > 0,
            variables_before(t, statement as int, declaration as int, t.nodes.len() as int, start)
                == variables_before(t, statement as int, declaration as int, end as int, start),
            gathered_so_far(namespaces@) == variables_before(
                t,
                statement as int,
                declaration as int,
                k as int,
                start,
            ),
        decreases end - k,
    {
        let node = tree.node(k);
        if k > 0 && node.parent == declaration && node.kind == NodeKind::VariableDeclarator {
            match get_declaration_name(tree, k) {
                Some(name) => {
                    add_symbol(namespaces, name, tree.node_text(statement));
                },
                None => {
                    proof {
                        assert(variables_before(
                            t,
                            statement as int,
                            declaration as int,
                            k + 1,
                            start,
                        ).failure == Some(unnamed_variable()));
                        lemma_variables_failure_stays(
                            t,
                            statement as int,
                            declaration as int,
                            k + 1,
                            t.nodes.len() as int,
                            start,
                        );
                    }
                    return Err(ExtractionError::Malformed("Variable without name".to_owned()));
                },
            }
        }
        k += 1;
    }
    Ok(())
}

/// Gives what the children of the export statement `statement` declare to
/// the namespaces.
fn add_exported(tree: &SyntaxTree, statement: usize, namespaces: &mut Vec<Namespace>) -> (result:
    Result<(), ExtractionError>)
    requires
        tree.wf(),
        statement < tree.nodes().len(),
        old(namespaces)@.len() > 0,
    ensures
        final(namespaces)@.len() > 0,
        is_outcome(
            result,
            final(namespaces)@,
            exported_before(
                tree@,
                statement as int,
                tree.nodes().len() as int,
                gathered_so_far(old(namespaces)@),
            ),
        ),
{
    let ghost start = gathered_so_far(namespaces@);
    let ghost t = tree@;
    let (first, end) = tree.below(statement);
    let mut k: usize = first;
    proof {
        lemma_exported_skip(t, statement as int, 0, first as int, start);
        lemma_exported_skip(t, statement as int, end as int, t.nodes.len() as int, start);
    }
    while k < end
        invariant
            tree.wf(),
            t == tree@,
            start == gathered_so_far(old(namespaces)@),
            statement < tree.nodes().len(),
            k <= end <= tree.nodes().len(),
            namespaces@.len() > 0,
            exported_before(t, statement as int, t.nodes.len() as int, start) == exported_before(
                t,
                statement as int,
                end as int,
                start,
            ),
            gathered_so_far(namespaces@) == exported_before(t, statement as int, k as int, start),
        decreases end - k,
    {
        let node = tree.node(k);
        if k > 0 && node.parent == statement {
            let kind = node.kind;
            let mut failure: Option<ExtractionError> = None;
            if kind == NodeKind::EnumDeclaration || kind == NodeKind::InterfaceDeclaration || kind
                == NodeKind::ClassDeclaration || kind == NodeKind::FunctionDeclaration || kind
                == NodeKind::TypeAliasDeclaration {
                match get_declaration_name(tree, k) {
                    Some(name) => {
                        add_symbol(namespaces, name, tree.node_text(statement));
                    },
                    None => {
                        failure = Some(
                            ExtractionError::Malformed("Declaration without name".to_owned()),
                        );
                    },
                }
            } else if kind == NodeKind::LexicalDeclaration {
                match add_variables(tree, statement, k, namespaces) {
                    Ok(_) => {},
                    Err(e) => {
                        failure = Some(e);
                    },
                }
            } else if kind == NodeKind::InternalModule {
                match get_declaration_name(tree, k) {
                    Some(name) => {
                        add_namespace(namespaces, name);
                    },
                    None => {
                        failure = Some(
                            ExtractionError::Malformed("Namespace without name".to_owned()),
                        );
                    },
                }
            }
            match failure {
                Some(e) => {
                    proof {
                        assert(exported_before(t, statement as int, k + 1, start).failure
                            is Some);
                        lemma_exported_failure_stays(
                            t,
                            statement as int,
                            k + 1,
                            t.nodes.len() as int,
                            start,
                        );
                    }
                    return Err(e);
                },
                None => {},
            }
        }
        k += 1;
    }
    Ok(())
}

/// Goes through the children of `node`, each with all that stands below it.
fn process_children(tree: &SyntaxTree, node: usize, namespaces: &mut Vec<Namespace>) -> (result:
    Result<(), ExtractionError>)
    requires
        tree.wf(),
        node < tree.nodes().len(),
        old(namespaces)@.len() > 0,
    ensures
        final(namespaces)@.len() > 0,
        is_outcome(
            result,
            final(namespaces)@,
            children_gathered_before(
                tree@,
                node as int,
                tree.nodes().len() as int,
                gathered_so_far(old(namespaces)@),
            ),
        ),
    decreases tree.nodes().len() - node, 0nat,
{
    let ghost start = gathered_so_far(namespaces@);
    let ghost t = tree@;
    let (first, end) = tree.below(node);
    let mut k: usize = first;
    proof {
        lemma_children_gathered_skip(t, node as int, 0, first as int, start);
        lemma_children_gathered_skip(t, node as int, end as int, t.nodes.len() as int, start);
    }
    while k < end
        invariant
            tree.wf(),
            t == tree@,
            start == gathered_so_far(old(namespaces)@),
            node < tree.nodes().len(),
            k <= end <= tree.nodes().len(),
            namespaces@.len() > 0,
            children_gathered_before(t, node as int, t.nodes.len() as int, start)
                == children_gathered_before(t, node as int, end as int, start),
            gathered_so_far(namespaces@) == children_gathered_before(
                t,
                node as int,
                k as int,
                start,
            ),
        decreases end - k,
    {
        if k > node && tree.node(k).parent == node {
            match process_node(tree, k, namespaces) {
                Ok(_) => {},
                Err(e) => {
                    proof {
                        assert(children_gathered_before(t, node as int, k + 1, start).failure
                            is Some);
                        lemma_children_failure_stays(
                            t,
                            node as int,
                            k + 1,
                            t.nodes.len() as int,
                            start,
                        );
                    }
                    return Err(e);
                },
            }
        }
        k += 1;
    }
    Ok(())
}

/// Goes through `node` and all that stands below it, and gives what the
/// export statements among them declare to `namespaces`: the declarations
/// to the first namespace, each exported namespace as a new, empty one.
///
/// Fails with `Malformed` at the first declaration, variable or namespace
/// that has no name; what was gathered before it stays in `namespaces`.
pub fn process_node(tree: &SyntaxTree, node: usize, namespaces: &mut Vec<Namespace>) -> (result:
    Result<(), ExtractionError>)
    requires
        tree.wf(),
        node < tree.nodes().len(),
        old(namespaces)@.len() > 0,
    ensures
        final(namespaces)@.len() > 0,
        is_outcome(
            result,
            final(namespaces)@,
            gathered(tree@, node as int, gathered_so_far(old(namespaces)@)),
        ),
    decreases tree.nodes().len() - node, 1nat,
{
    if tree.node(node).kind == NodeKind::ExportStatement {
        match add_exported(tree, node, namespaces) {
            Ok(_) => {},
            Err(e) => {
                return Err(e);
            },
        }
    }
    process_children(tree, node, namespaces)
}

/// The namespaces of the library `name` whose entry point has the syntax
/// tree `tree`: the namespace of the library itself, with the exported
/// declarations of the file, and then one empty namespace for each
/// exported namespace.
pub open spec fn public_api(t: TreeView, name: Seq<char>) -> Gathered {
    gathered(
        t,
        0,
        Gathered {
            namespaces: seq![NamespaceView { name, symbols: Seq::empty(), doc_comment: None }],
            failure: None,
        },
    )
}

/// The namespaces of the library `name` whose entry point has the syntax
/// tree `tree`, or the `Malformed` error of the first declaration without
/// a name.
pub fn public_api_from_tree(tree: &SyntaxTree, name: &str) -> (result: Result<
    Vec<Namespace>,
    ExtractionError,
>)
    requires
        tree.wf(),
    ensures
        match result {
            Ok(namespaces) => public_api(tree@, name@).failure is None && namespace_views(
                namespaces@,
            ) == public_api(tree@, name@).namespaces,
            Err(e) => e matches ExtractionError::Malformed(message) && public_api(
                tree@,
                name@,
            ).failure == Some(message@),
        },
{
    let mut namespaces: Vec<Namespace> = Vec::new();
    add_namespace(&mut namespaces, name.to_owned());
    assert(namespace_views(namespaces@) =~= seq![
        NamespaceView { name: name@, symbols: Seq::empty(), doc_comment: None },
    ]);
    match process_node(tree, 0, &mut namespaces) {
        Ok(_) => Ok(namespaces),
        Err(e) => Err(e),
    }
}

/// Parses the source text of the entry point of the library `name` and
/// gathers its exported declarations into namespaces.
///
/// Fails with `Malformed` if the parser gives no tree, or at the first
/// exported declaration without a name. What is gathered is what
/// [`public_api_from_tree`] gives for a tree over `source_code`.
pub fn extract_public_api(name: &str, source_code: &str, parser: &mut tree_sitter::Parser) -> (result:
    Result<Vec<Namespace>, ExtractionError>)
    ensures
        match result {
            Ok(namespaces) => exists|t: TreeView|
                t.wf() && t.text == source_code@ && (#[trigger] public_api(t, name@)).failure
                    is None && namespace_views(namespaces@) == public_api(t, name@).namespaces,
            Err(e) => e matches ExtractionError::Malformed(message) && (message@ == no_tree()
                || exists|t: TreeView|
                t.wf() && t.text == source_code@ && (#[trigger] public_api(t, name@)).failure
                    == Some(message@)),
        },
{
    match parse_unchecked(source_code, parser) {
        Some(tree) => public_api_from_tree(&tree, name),
        None => Err(ExtractionError::Malformed("Failed to parse source".to_owned())),
    }
}

} // verus!
