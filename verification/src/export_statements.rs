//! The export statements of a file: what each of them exports, and the
//! exports that they give together.

use vstd::prelude::*;
use crate::exports::{
    ExportForm, ExportMatch, ExportMatchView, accumulate_exports, accumulated_exports, match_views,
};
use crate::kinds::{FieldName, NodeKind};
use crate::module::{SymbolView, TypeScriptSymbol, clone_text_option, symbol_views, text_option};
use crate::scope::{
    has_namespace_ancestor, is_top_level, optional_text, source_fragment, source_of,
    text_of_optional,
};
use crate::tree::{
    SyntaxNode, SyntaxTree, TreeView, all_below, child_of_kind_from, find_child, is_child,
    lemma_child_is_below, next_named_sibling, nothing_below_between,
};

verus! {

/// The matches of the export specifiers before `k` among the children of
/// the export clause `clause`, in a statement that names `source`. A
/// specifier counts if an identifier fills its field `name`.
pub open spec fn specifier_matches_before(
    t: TreeView,
    clause: int,
    source: Option<Seq<char>>,
    k: int,
) -> Seq<ExportMatchView>
    decreases k,
{
    if k <= 0 {
        Seq::empty()
    } else {
        let rest = specifier_matches_before(t, clause, source, k - 1);
        if is_child(t.nodes, clause, k - 1) && t.nodes[k - 1].kind
            == NodeKind::ExportSpecifier {
            match find_child(t.nodes, k - 1, NodeKind::Identifier, Some(FieldName::Name)) {
                Some(name) => rest.push(
                    ExportMatchView {
                        form: ExportForm::Specifier,
                        name: t.text_of(name as int),
                        alias: optional_text(
                            t,
                            find_child(
                                t.nodes,
                                k - 1,
                                NodeKind::Identifier,
                                Some(FieldName::Alias),
                            ),
                        ),
                        source,
                        is_last: next_named_sibling(t.nodes, k - 1) is None,
                    },
                ),
                None => rest,
            }
        } else {
            rest
        }
    }
}

/// The matches of the specifiers of the export clause of statement `s`.
pub open spec fn named_matches(t: TreeView, s: int) -> Seq<ExportMatchView> {
    match find_child(t.nodes, s, NodeKind::ExportClause, None) {
        Some(clause) => specifier_matches_before(
            t,
            clause as int,
            optional_text(t, source_fragment(t.nodes, s)),
            t.nodes.len() as int,
        ),
        None => Seq::empty(),
    }
}

/// The identifier that statement `s` exports after the token `=`.
pub open spec fn commonjs_name(nodes: Seq<SyntaxNode>, s: int) -> Option<usize> {
    match find_child(nodes, s, NodeKind::EqualsSign, None) {
        Some(sign) => child_of_kind_from(nodes, s, NodeKind::Identifier, None, sign + 1),
        None => None,
    }
}

/// The match of statement `s` as a CommonJS export.
pub open spec fn commonjs_matches(t: TreeView, s: int) -> Seq<ExportMatchView> {
    match commonjs_name(t.nodes, s) {
        Some(name) => seq![
            ExportMatchView {
                form: ExportForm::CommonJs,
                name: t.text_of(name as int),
                alias: None,
                source: None,
                is_last: false,
            },
        ],
        None => Seq::empty(),
    }
}

/// The identifier that the namespace export of statement `s` names.
pub open spec fn namespace_export_name(nodes: Seq<SyntaxNode>, s: int) -> Option<usize> {
    match find_child(nodes, s, NodeKind::NamespaceExport, None) {
        Some(export) => find_child(nodes, export as int, NodeKind::Identifier, None),
        None => None,
    }
}

/// The match of statement `s` as a namespace export from a named module.
pub open spec fn namespace_matches(t: TreeView, s: int) -> Seq<ExportMatchView> {
    match (namespace_export_name(t.nodes, s), source_fragment(t.nodes, s)) {
        (Some(name), Some(source)) => seq![
            ExportMatchView {
                form: ExportForm::Namespace,
                name: t.text_of(name as int),
                alias: None,
                source: Some(t.text_of(source as int)),
                is_last: false,
            },
        ],
        _ => Seq::empty(),
    }
}

/// The match of statement `s` as a barrel export from a named module.
pub open spec fn barrel_matches(t: TreeView, s: int) -> Seq<ExportMatchView> {
    match (find_child(t.nodes, s, NodeKind::Asterisk, None), source_fragment(t.nodes, s)) {
        (Some(_), Some(source)) => seq![
            ExportMatchView {
                form: ExportForm::Barrel,
                name: Seq::empty(),
                alias: None,
                source: Some(t.text_of(source as int)),
                is_last: false,
            },
        ],
        _ => Seq::empty(),
    }
}

/// The matches that node `s` gives, if it is an export statement: those of
/// its specifiers, then what it is as a CommonJS, as a namespace and as a
/// barrel export.
pub open spec fn statement_matches(t: TreeView, s: int) -> Seq<ExportMatchView> {
    if t.nodes[s].kind == NodeKind::ExportStatement {
        named_matches(t, s) + commonjs_matches(t, s) + namespace_matches(t, s) + barrel_matches(
            t,
            s,
        )
    } else {
        Seq::empty()
    }
}

/// The matches of the export statements before `k` that stand below `root`
/// and in no namespace below `root`.
pub open spec fn export_matches_before(t: TreeView, root: int, k: int) -> Seq<ExportMatchView>
    decreases k,
{
    if k <= 0 {
        Seq::empty()
    } else if is_top_level(t.nodes, root, k - 1) {
        export_matches_before(t, root, k - 1) + statement_matches(t, k - 1)
    } else {
        export_matches_before(t, root, k - 1)
    }
}

/// The matches of the export statements below `root`.
pub open spec fn export_matches(t: TreeView, root: int) -> Seq<ExportMatchView> {
    export_matches_before(t, root, t.nodes.len() as int)
}

/// The exports of the export statements below `root`.
pub open spec fn exports(t: TreeView, root: int) -> Seq<SymbolView> {
    accumulated_exports(export_matches(t, root))
}

/// Nodes that do not stand below an export clause give it no match.
pub proof fn lemma_specifier_matches_skip(
    t: TreeView,
    clause: int,
    source: Option<Seq<char>>,
    a: int,
    b: int,
)
    requires
        t.wf(),
        0 <= a <= b <= t.nodes.len(),
        nothing_below_between(t.nodes, clause, a, b),
    ensures
        specifier_matches_before(t, clause, source, b) == specifier_matches_before(
            t,
            clause,
            source,
            a,
        ),
    decreases b - a,
{
    if a < b {
        lemma_specifier_matches_skip(t, clause, source, a, b - 1);
        if is_child(t.nodes, clause, b - 1) {
            lemma_child_is_below(t.text, t.nodes, clause, b - 1);
        }
    }
}

/// Adds the matches of the specifiers of the export clause `clause`.
fn add_specifier_matches(
    tree: &SyntaxTree,
    clause: usize,
    source: &Option<String>,
    matches: &mut Vec<ExportMatch>,
)
    requires
        tree.wf(),
    ensures
        match_views(final(matches)@) == match_views(old(matches)@) + specifier_matches_before(
            tree@,
            clause as int,
            text_option(*source),
            tree.nodes().len() as int,
        ),
{
    let ghost start = match_views(matches@);
    let (first, end) = tree.below(clause);
    let mut k: usize = first;
    proof {
        assert(match_views(matches@) =~= start + specifier_matches_before(
            tree@,
            clause as int,
            text_option(*source),
            0,
        ));
        lemma_specifier_matches_skip(tree@, clause as int, text_option(*source), 0, first as int);
        lemma_specifier_matches_skip(
            tree@,
            clause as int,
            text_option(*source),
            end as int,
            tree.nodes().len() as int,
        );
    }
    while k < end
        invariant
            tree.wf(),
            k <= end <= tree.nodes().len(),
            match_views(matches@) == start + specifier_matches_before(
                tree@,
                clause as int,
                text_option(*source),
                k as int,
            ),
        decreases end - k,
    {
        let node = tree.node(k);
        if k > 0 && node.parent == clause && node.kind == NodeKind::ExportSpecifier {
            match tree.find_child(k, NodeKind::Identifier, Some(FieldName::Name)) {
                Some(name) => {
                    let alias = tree.find_child(k, NodeKind::Identifier, Some(FieldName::Alias));
                    let found = ExportMatch {
                        form: ExportForm::Specifier,
                        name: tree.node_text(name),
                        alias: text_of_optional(tree, alias),
                        source: clone_text_option(source),
                        is_last: tree.next_named_sibling(k).is_none(),
                    };
                    let ghost before = matches@;
                    matches.push(found);
                    assert(match_views(matches@) =~= match_views(before).push(found@));
                },
                None => {},
            }
        }
        assert(match_views(matches@) =~= start + specifier_matches_before(
            tree@,
            clause as int,
            text_option(*source),
            k + 1,
        ));
        k += 1;
    }
}

/// Adds the matches of the export statement `s`.
fn add_statement_matches(tree: &SyntaxTree, s: usize, matches: &mut Vec<ExportMatch>)
    requires
        tree.wf(),
        s < tree.nodes().len(),
        tree.nodes()[s as int].kind == NodeKind::ExportStatement,
    ensures
        match_views(final(matches)@) == match_views(old(matches)@) + statement_matches(
            tree@,
            s as int,
        ),
{
    let ghost start = match_views(matches@);
    let fragment = source_of(tree, s);
    let source = text_of_optional(tree, fragment);
    match tree.find_child(s, NodeKind::ExportClause, None) {
        Some(clause) => {
            add_specifier_matches(tree, clause, &source, matches);
        },
        None => {},
    }
    assert(match_views(matches@) =~= start + named_matches(tree@, s as int));
    match tree.find_child(s, NodeKind::EqualsSign, None) {
        Some(sign) => {
            match tree.child_of_kind_from(s, NodeKind::Identifier, None, sign + 1) {
                Some(name) => {
                    let found = ExportMatch {
                        form: ExportForm::CommonJs,
                        name: tree.node_text(name),
                        alias: None,
                        source: None,
                        is_last: false,
                    };
                    let ghost before = matches@;
                    matches.push(found);
                    assert(match_views(matches@) =~= match_views(before).push(found@));
                },
                None => {},
            }
        },
        None => {},
    }
    assert(match_views(matches@) =~= start + named_matches(tree@, s as int) + commonjs_matches(
        tree@,
        s as int,
    ));
    match tree.find_child(s, NodeKind::NamespaceExport, None) {
        Some(export) => {
            match tree.find_child(export, NodeKind::Identifier, None) {
                Some(name) => {
                    if source.is_some() {
                        let found = ExportMatch {
                            form: ExportForm::Namespace,
                            name: tree.node_text(name),
                            alias: None,
                            source: clone_text_option(&source),
                            is_last: false,
                        };
                        let ghost before = matches@;
                        matches.push(found);
                        assert(match_views(matches@) =~= match_views(before).push(found@));
                    }
                },
                None => {},
            }
        },
        None => {},
    }
    assert(match_views(matches@) =~= start + named_matches(tree@, s as int) + commonjs_matches(
        tree@,
        s as int,
    ) + namespace_matches(tree@, s as int));
    if tree.find_child(s, NodeKind::Asterisk, None).is_some() && source.is_some() {
        let found = ExportMatch {
            form: ExportForm::Barrel,
            name: String::new(),
            alias: None,
            source,
            is_last: false,
        };
        let ghost before = matches@;
        matches.push(found);
        assert(match_views(matches@) =~= match_views(before).push(found@));
    }
    assert(match_views(matches@) =~= start + statement_matches(tree@, s as int));
}

/// Nodes that do not stand below `root` give no export below `root`.
pub proof fn lemma_export_matches_skip(t: TreeView, root: int, a: int, b: int)
    requires
        0 <= a <= b,
        nothing_below_between(t.nodes, root, a, b),
    ensures
        export_matches_before(t, root, b) == export_matches_before(t, root, a),
    decreases b - a,
{
    if a < b {
        lemma_export_matches_skip(t, root, a, b - 1);
    }
}

/// The matches of the export statements below `root` that stand in no
/// namespace below `root`, in the order of the source text.
pub fn find_export_matches(tree: &SyntaxTree, root: usize) -> (matches: Vec<ExportMatch>)
    requires
        tree.wf(),
    ensures
        match_views(matches@) == export_matches(tree@, root as int),
{
    let mut matches: Vec<ExportMatch> = Vec::new();
    let (first, end) = tree.below(root);
    let mut k: usize = first;
    proof {
        assert(match_views(matches@) =~= export_matches_before(tree@, root as int, 0));
        lemma_export_matches_skip(tree@, root as int, 0, first as int);
        lemma_export_matches_skip(tree@, root as int, end as int, tree.nodes().len() as int);
    }
    while k < end
        invariant
            tree.wf(),
            first <= k <= end <= tree.nodes().len(),
            all_below(tree.nodes(), root as int, first as int, end as int),
            match_views(matches@) == export_matches_before(tree@, root as int, k as int),
        decreases end - k,
    {
        if tree.node(k).kind == NodeKind::ExportStatement && !has_namespace_ancestor(
            tree,
            k,
            root,
        ) {
            add_statement_matches(tree, k, &mut matches);
        }
        assert(match_views(matches@) =~= export_matches_before(tree@, root as int, k + 1));
        k += 1;
    }
    matches
}

/// The exports of the export statements below `root`, in the order of the
/// source text. A namespace export and a barrel export give one export
/// each; the specifiers of a named export are gathered into one export for
/// their statement; a CommonJS export gives a named export of one name.
pub fn extract_exports(tree: &SyntaxTree, root: usize) -> (found: Vec<TypeScriptSymbol>)
    requires
        tree.wf(),
    ensures
        symbol_views(found@) == exports(tree@, root as int),
{
    let matches = find_export_matches(tree, root);
    accumulate_exports(&matches)
}

} // verus!
