//! What holds of every extraction.

use vstd::prelude::*;
use vstd::set_lib::lemma_len_subset;
use crate::aliases::{distinct_names, lemma_with_alias};
use crate::declarations::{
    declaration_of, declarations, declarations_before, declared_symbol, definition_of,
    definition_start, names_declaration,
};
use crate::export_statements::{export_matches, export_matches_before, exports};
use crate::exports::{
    ExportMatchView, after_flush, changes_source, emitted, emitted_after, state_after,
    with_specifier,
};
use crate::imports::{
    clause_imports_before, imports, imports_before, named_imports_before, specifier_alias,
    specifier_name, statement_imports,
};
use crate::jsdoc::doc_comment_at;
use crate::kinds::NodeKind;
use crate::module::{ExportTargetView, ImportTargetView, ModuleView, SymbolView};
use crate::module_set::{GraphView, next_unvisited};
use crate::parsing::{
    is_namespace, module_of, module_symbols, namespace_body, namespaces, namespaces_before,
};
use crate::scope::{inside_namespace, is_top_level, source_fragment};
use crate::text::{bytes_of, is_text_range, lemma_text_slice_bytes};
use crate::tree::{
    SyntaxNode, SyntaxTree, TreeView, find_child, is_ancestor, is_child, lemma_ancestor_is_before,
    lemma_prev_sibling_is_before, prev_sibling,
};

verus! {

/// Whether `part` is, byte for byte, a part of `text` that begins and ends
/// between two characters.
pub open spec fn is_part_of(text: Seq<char>, part: Seq<char>) -> bool {
    exists|start: int, end: int|
        is_text_range(text, start, end) && bytes_of(part) == #[trigger] bytes_of(text).subrange(
            start,
            end,
        )
}

/// Whether the source code of a declaration, or of every declaration
/// in a namespace and in the namespaces that it holds, is a part of `text`.
pub open spec fn source_is_part_of(text: Seq<char>, symbol: SymbolView) -> bool
    decreases symbol,
{
    match symbol {
        SymbolView::Symbol { source_code, .. } => is_part_of(text, source_code),
        SymbolView::Namespace { content, .. } => forall|i: int|
            0 <= i < content.len() ==> source_is_part_of(text, #[trigger] content[i]),
        _ => true,
    }
}

/// The statement of a declaration lies in the tree, and its source text
/// with the doc comment before it is a proper range of the text.
pub proof fn lemma_definition_range(t: TreeView, k: int)
    requires
        t.wf(),
        0 <= k < t.nodes.len(),
        declaration_of(t.nodes, k) is Some,
    ensures
        ({
            let def = definition_of(t.nodes, declaration_of(t.nodes, k).unwrap() as int);
            0 <= def < t.nodes.len() && is_text_range(
                t.text,
                definition_start(t, def),
                t.nodes[def].end as int,
            )
        }),
{
    let d = declaration_of(t.nodes, k).unwrap() as int;
    let holder = t.nodes[k].parent as int;
    assert(0 <= holder < k);
    assert(d == holder || d == t.nodes[holder].parent);
    assert(0 <= d < t.nodes.len());
    let def = definition_of(t.nodes, d);
    assert(0 <= def < t.nodes.len());
    lemma_prev_sibling_is_before(t.nodes, def);
    assert(is_text_range(t.text, t.nodes[def].start as int, t.nodes[def].end as int));
    match doc_comment_at(t, prev_sibling(t.nodes, def)) {
        Some(_) => {
            let before = prev_sibling(t.nodes, def).unwrap() as int;
            assert(is_text_range(t.text, t.nodes[before].start as int, t.nodes[before].end as int));
            assert(t.nodes[before].start <= t.nodes[def].start);
        },
        None => {},
    }
}

/// The source code of the symbol of a declaration is a part of the text of
/// the file.
pub proof fn lemma_declared_source_is_part_of_text(t: TreeView, k: int)
    requires
        t.wf(),
        0 <= k < t.nodes.len(),
        declaration_of(t.nodes, k) is Some,
    ensures
        declared_symbol(t, k) is Symbol,
        source_is_part_of(t.text, declared_symbol(t, k)),
{
    lemma_definition_range(t, k);
    let def = definition_of(t.nodes, declaration_of(t.nodes, k).unwrap() as int);
    let start = definition_start(t, def);
    let end = t.nodes[def].end as int;
    lemma_text_slice_bytes(t.text, start, end);
    assert(is_text_range(t.text, start, end) && bytes_of(
        declared_symbol(t, k)->Symbol_source_code,
    ) == bytes_of(t.text).subrange(start, end));
}

/// The declarations are symbols whose source code is a part of the text.
pub proof fn lemma_declarations_are_symbols(t: TreeView, root: int, k: int)
    requires
        t.wf(),
        0 <= k <= t.nodes.len(),
    ensures
        forall|i: int|
            0 <= i < declarations_before(t, root, k).len() ==> (#[trigger] declarations_before(
                t,
                root,
                k,
            )[i]) is Symbol && source_is_part_of(t.text, declarations_before(t, root, k)[i]),
    decreases k,
{
    if k > 0 {
        lemma_declarations_are_symbols(t, root, k - 1);
        if names_declaration(t, root, k - 1) {
            lemma_declared_source_is_part_of_text(t, k - 1);
        }
    }
}

/// The imports of a clause are module imports.
pub proof fn lemma_clause_imports_are_imports(t: TreeView, clause: int, source: Seq<char>, k: int)
    ensures
        forall|i: int|
            0 <= i < clause_imports_before(t, clause, source, k).len() ==> (
            #[trigger] clause_imports_before(t, clause, source, k)[i]) is ModuleImport,
    decreases k,
{
    if k > 0 {
        lemma_clause_imports_are_imports(t, clause, source, k - 1);
    }
}

/// The imports are module imports.
pub proof fn lemma_imports_are_imports(t: TreeView, root: int, k: int)
    ensures
        forall|i: int|
            0 <= i < imports_before(t, root, k).len() ==> (#[trigger] imports_before(
                t,
                root,
                k,
            )[i]) is ModuleImport,
    decreases k,
{
    if k > 0 {
        lemma_imports_are_imports(t, root, k - 1);
        let added = statement_imports(t, k - 1);
        assert forall|i: int| 0 <= i < added.len() implies (#[trigger] added[i])
            is ModuleImport by {
            if t.nodes[k - 1].kind == NodeKind::ImportStatement {
                match (
                    find_child(t.nodes, k - 1, NodeKind::ImportClause, None),
                    source_fragment(t.nodes, k - 1),
                ) {
                    (Some(clause), Some(source)) => {
                        lemma_clause_imports_are_imports(
                            t,
                            clause as int,
                            t.text_of(source as int),
                            t.nodes.len() as int,
                        );
                    },
                    _ => {},
                }
            }
        }
    }
}

/// What leaves the accumulation of exports is module exports.
pub proof fn lemma_exports_are_exports(matches: Seq<ExportMatchView>, k: int)
    ensures
        forall|i: int|
            0 <= i < emitted_after(matches, k).len() ==> (#[trigger] emitted_after(matches, k)[i])
                is ModuleExport,
    decreases k,
{
    if k > 0 {
        lemma_exports_are_exports(matches, k - 1);
        let state = state_after(matches, k - 1);
        let added = emitted(state, matches[k - 1]);
        assert forall|i: int| 0 <= i < added.len() implies (#[trigger] added[i])
            is ModuleExport by {}
    }
}

/// The namespaces are namespaces.
pub proof fn lemma_namespaces_are_namespaces(t: TreeView, root: int, k: int)
    ensures
        forall|i: int|
            0 <= i < namespaces_before(t, root, k).len() ==> (#[trigger] namespaces_before(
                t,
                root,
                k,
            )[i]) is Namespace,
    decreases k,
{
    if 0 < k <= t.nodes.len() {
        lemma_namespaces_are_namespaces(t, root, k - 1);
    }
}

/// The symbols of a file stand in four groups: the imports, then the
/// declarations, then the namespaces, then the exports. The imports are
/// module imports, the declarations are symbols, the namespaces are
/// namespaces and the exports are module exports.
pub proof fn lemma_symbols_are_grouped(t: TreeView, root: int)
    requires
        t.wf(),
    ensures
        module_symbols(t, root) == imports(t, root) + declarations(t, root) + namespaces(t, root)
            + exports(t, root),
        forall|i: int| 0 <= i < imports(t, root).len() ==> (#[trigger] imports(t, root)[i])
            is ModuleImport,
        forall|i: int|
            0 <= i < declarations(t, root).len() ==> (#[trigger] declarations(t, root)[i])
                is Symbol,
        forall|i: int| 0 <= i < namespaces(t, root).len() ==> (#[trigger] namespaces(t, root)[i])
            is Namespace,
        forall|i: int| 0 <= i < exports(t, root).len() ==> (#[trigger] exports(t, root)[i])
            is ModuleExport,
{
    lemma_imports_are_imports(t, root, t.nodes.len() as int);
    lemma_declarations_are_symbols(t, root, t.nodes.len() as int);
    lemma_namespaces_are_namespaces(t, root, t.nodes.len() as int);
    lemma_exports_are_exports(export_matches(t, root), export_matches(t, root).len() as int);
}

/// Within their group the imports stand in the order of the source text:
/// those of the statements before a node come before the others.
pub proof fn lemma_imports_follow_the_source(t: TreeView, root: int, j: int, k: int)
    requires
        j <= k,
    ensures
        imports_before(t, root, j).is_prefix_of(imports_before(t, root, k)),
    decreases k - j,
{
    if j < k {
        lemma_imports_follow_the_source(t, root, j, k - 1);
    }
}

/// Within their group the declarations stand in the order of the source
/// text: those named before a node come before the others.
pub proof fn lemma_declarations_follow_the_source(t: TreeView, root: int, j: int, k: int)
    requires
        j <= k,
    ensures
        declarations_before(t, root, j).is_prefix_of(declarations_before(t, root, k)),
    decreases k - j,
{
    if j < k {
        lemma_declarations_follow_the_source(t, root, j, k - 1);
    }
}

/// Within their group the namespaces stand in the order of the source
/// text: those before a node come before the others.
pub proof fn lemma_namespaces_follow_the_source(t: TreeView, root: int, j: int, k: int)
    requires
        0 <= j <= k <= t.nodes.len(),
    ensures
        namespaces_before(t, root, j).is_prefix_of(namespaces_before(t, root, k)),
    decreases k - j,
{
    if j < k {
        lemma_namespaces_follow_the_source(t, root, j, k - 1);
    }
}

/// The export statements are matched in the order of the source text:
/// the matches of the statements before a node come before the others.
pub proof fn lemma_export_matches_follow_the_source(t: TreeView, root: int, j: int, k: int)
    requires
        j <= k,
    ensures
        export_matches_before(t, root, j).is_prefix_of(export_matches_before(t, root, k)),
    decreases k - j,
{
    if j < k {
        lemma_export_matches_follow_the_source(t, root, j, k - 1);
    }
}

/// The exports leave in the order of their matches: those that have left
/// after some matches come before the others.
pub proof fn lemma_exports_follow_their_matches(matches: Seq<ExportMatchView>, j: int, k: int)
    requires
        j <= k,
    ensures
        emitted_after(matches, j).is_prefix_of(emitted_after(matches, k)),
    decreases k - j,
{
    if j < k {
        lemma_exports_follow_their_matches(matches, j, k - 1);
    }
}

/// A node below a namespace that stands below `root` is inside a
/// namespace as seen from `root`.
pub proof fn lemma_below_namespace_is_inside(nodes: Seq<SyntaxNode>, root: int, m: int, k: int)
    requires
        is_ancestor(nodes, root, m),
        nodes[m].kind == NodeKind::InternalModule,
        is_ancestor(nodes, m, k),
    ensures
        inside_namespace(nodes, root, k),
    decreases k,
{
    lemma_ancestor_is_before(nodes, root, m);
    lemma_ancestor_is_before(nodes, m, k);
    let p = nodes[k].parent as int;
    if p != m {
        lemma_ancestor_is_before(nodes, m, p);
        lemma_below_namespace_is_inside(nodes, root, m, p);
    }
}

/// A node that is inside a namespace as seen from `root` stands below a
/// namespace that stands below `root`.
pub proof fn lemma_inside_is_below_namespace(nodes: Seq<SyntaxNode>, root: int, k: int)
    requires
        is_ancestor(nodes, root, k),
        inside_namespace(nodes, root, k),
    ensures
        exists|m: int|
            is_ancestor(nodes, root, m) && nodes[m].kind == NodeKind::InternalModule
                && #[trigger] is_ancestor(nodes, m, k),
    decreases k,
{
    let p = nodes[k].parent as int;
    assert(p != root);
    assert(is_ancestor(nodes, root, p));
    if nodes[p].kind == NodeKind::InternalModule {
        assert(is_ancestor(nodes, p, k));
    } else {
        lemma_inside_is_below_namespace(nodes, root, p);
        let m = choose|m: int|
            is_ancestor(nodes, root, m) && nodes[m].kind == NodeKind::InternalModule
                && #[trigger] is_ancestor(nodes, m, p);
        assert(is_ancestor(nodes, m, k));
    }
}

/// What stands inside a namespace is left out of the symbols around the
/// namespace. For a node `k` below a namespace `m` that stands below
/// `root`: a declaration at `k` gives no symbol, a namespace at `k` gives
/// no namespace, and a statement at `k` gives no import and no export
/// among the symbols of `root`.
pub proof fn lemma_namespace_content_is_left_out(t: TreeView, root: int, m: int, k: int)
    requires
        t.wf(),
        is_ancestor(t.nodes, root, m),
        t.nodes[m].kind == NodeKind::InternalModule,
        is_ancestor(t.nodes, m, k),
    ensures
        !is_top_level(t.nodes, root, k),
        !is_namespace(t.nodes, root, k),
        forall|name: int| declaration_of(t.nodes, name) == Some(k as usize) ==> !names_declaration(
            t,
            root,
            name,
        ),
        imports_before(t, root, k + 1) == imports_before(t, root, k),
        namespaces_before(t, root, k + 1) == namespaces_before(t, root, k),
        export_matches_before(t, root, k + 1) == export_matches_before(t, root, k),
{
    lemma_below_namespace_is_inside(t.nodes, root, m, k);
    lemma_ancestor_is_before(t.nodes, m, k);
}

/// The source code of every declaration among the symbols below `root`,
/// and in the namespaces among them, is a part of the text of the file,
/// byte for byte.
pub proof fn lemma_source_code_is_part_of_text(t: TreeView, root: int)
    requires
        t.wf(),
        0 <= root < t.nodes.len(),
    ensures
        forall|i: int|
            0 <= i < module_symbols(t, root).len() ==> source_is_part_of(
                t.text,
                #[trigger] module_symbols(t, root)[i],
            ),
    decreases t.nodes.len() - root, t.nodes.len() + 1,
{
    lemma_symbols_are_grouped(t, root);
    lemma_declarations_are_symbols(t, root, t.nodes.len() as int);
    lemma_namespace_sources_are_parts(t, root, t.nodes.len() as int);
    let all = module_symbols(t, root);
    let first = imports(t, root);
    let second = declarations(t, root);
    let third = namespaces(t, root);
    let fourth = exports(t, root);
    assert forall|i: int| 0 <= i < all.len() implies source_is_part_of(
        t.text,
        #[trigger] all[i],
    ) by {
        if i < first.len() {
            assert(all[i] == first[i]);
        } else if i < first.len() + second.len() {
            assert(all[i] == second[i - first.len()]);
        } else if i < first.len() + second.len() + third.len() {
            assert(all[i] == third[i - first.len() - second.len()]);
        } else {
            assert(all[i] == fourth[i - first.len() - second.len() - third.len()]);
        }
    }
}

/// The source code of every declaration in the namespaces below `root`
/// is a part of the text of the file.
pub proof fn lemma_namespace_sources_are_parts(t: TreeView, root: int, k: int)
    requires
        t.wf(),
        0 <= root < t.nodes.len(),
        0 <= k <= t.nodes.len(),
    ensures
        forall|i: int|
            0 <= i < namespaces_before(t, root, k).len() ==> source_is_part_of(
                t.text,
                #[trigger] namespaces_before(t, root, k)[i],
            ),
    decreases t.nodes.len() - root, k,
{
    if k > 0 {
        lemma_namespace_sources_are_parts(t, root, k - 1);
        if is_namespace(t.nodes, root, k - 1) {
            let body = namespace_body(t.nodes, k - 1).unwrap() as int;
            if root < body < t.nodes.len() {
                lemma_source_code_is_part_of_text(t, body);
            }
            let before = namespaces_before(t, root, k - 1);
            let all = namespaces_before(t, root, k);
            let added = all[before.len() as int];
            assert(all == before.push(added));
            assert(added is Namespace);
            assert(source_is_part_of(t.text, added)) by {
                let content = added->Namespace_content;
                assert forall|i: int| 0 <= i < content.len() implies source_is_part_of(
                    t.text,
                    #[trigger] content[i],
                ) by {
                    if root < body < t.nodes.len() {
                        assert(content == module_symbols(t, body));
                    }
                }
            }
            assert forall|i: int| 0 <= i < all.len() implies source_is_part_of(
                t.text,
                #[trigger] all[i],
            ) by {
                if i < before.len() {
                    assert(all[i] == before[i]);
                }
            }
        } else {
            assert(namespaces_before(t, root, k) == namespaces_before(t, root, k - 1));
        }
    } else {
        assert(namespaces_before(t, root, k).len() == 0);
    }
}

/// What is extracted from a file depends on its syntax tree and its path
/// alone: two extractions from the same tree give the same module.
pub proof fn lemma_extraction_is_repeatable(first: SyntaxTree, second: SyntaxTree, path: Seq<char>)
    requires
        first@ == second@,
    ensures
        module_of(first@, path) == module_of(second@, path),
{
}

/// The path that is read next has not been visited.
pub proof fn lemma_next_unvisited(queue: Seq<Seq<char>>, visited: Seq<Seq<char>>, k: int)
    requires
        0 <= k,
    ensures
        k <= next_unvisited(queue, visited, k) || queue.len() < k,
        next_unvisited(queue, visited, k) < queue.len() ==> !visited.contains(
            queue[next_unvisited(queue, visited, k)],
        ),
        next_unvisited(queue, visited, k) <= queue.len() || queue.len() < k,
    decreases queue.len() - k,
{
    if k < queue.len() && visited.contains(queue[k]) {
        lemma_next_unvisited(queue, visited, k + 1);
    }
}

/// A file is read once: a path that has been visited is not read again,
/// however often it stands in the queue. So a cycle of imports adds no
/// read, and a file that many import is read for the first of them alone.
pub proof fn lemma_visited_path_is_not_read_again(graph: GraphView, path: Seq<char>)
    requires
        graph.visited.contains(path),
    ensures
        ({
            let at = next_unvisited(graph.queue, graph.visited, 0);
            at < graph.queue.len() ==> graph.queue[at] != path
        }),
{
    lemma_next_unvisited(graph.queue, graph.visited, 0);
}

/// No file stands twice among the modules read: two modules of a
/// traversal at different places have different paths.
pub proof fn lemma_no_module_stands_twice(graph: GraphView, i: int, j: int)
    requires
        graph.wf(),
        0 <= i < graph.modules.len(),
        0 <= j < graph.modules.len(),
        i != j,
    ensures
        graph.modules[i].path != graph.modules[j].path,
{
    if i < j {
        assert(graph.modules[i].path != graph.modules[j].path);
    } else {
        assert(graph.modules[j].path != graph.modules[i].path);
    }
}

/// Reading a file keeps the modules distinct: the module of a path that
/// has just been taken from the queue stands at a path of its own.
pub proof fn lemma_read_keeps_paths_distinct(graph: GraphView, module: ModuleView)
    requires
        graph.wf(),
        graph.visited.contains(module.path),
        forall|i: int| 0 <= i < graph.modules.len() ==> (#[trigger] graph.modules[i]).path
            != module.path,
    ensures
        (GraphView {
            queue: graph.queue,
            visited: graph.visited,
            modules: graph.modules.push(module),
        }).wf(),
{
    let after = GraphView {
        queue: graph.queue,
        visited: graph.visited,
        modules: graph.modules.push(module),
    };
    assert forall|i: int, j: int| 0 <= i < j < after.modules.len() implies (
    #[trigger] after.modules[i]).path != (#[trigger] after.modules[j]).path by {
        if j < graph.modules.len() {
            assert(graph.modules[i].path != graph.modules[j].path);
        } else {
            assert(graph.modules[i].path != module.path);
        }
    }
    assert forall|i: int| 0 <= i < after.modules.len() implies after.visited.contains(
        (#[trigger] after.modules[i]).path,
    ) by {
        if i < graph.modules.len() {
            assert(graph.visited.contains(graph.modules[i].path));
        }
    }
}

/// Whether the renamed entries of a symbol, if it is a named import or a
/// named export, hold each name once.
pub open spec fn holds_each_name_once(symbol: SymbolView) -> bool {
    match symbol {
        SymbolView::ModuleImport { target: ImportTargetView::Named { aliases, .. }, .. } =>
            distinct_names(aliases),
        SymbolView::ModuleExport { target: ExportTargetView::Named { aliases, .. }, .. } =>
            distinct_names(aliases),
        _ => true,
    }
}

/// The renamed entries of a block of named imports hold each name once.
pub proof fn lemma_named_imports_hold_each_name_once(t: TreeView, block: int, k: int)
    ensures
        distinct_names(named_imports_before(t, block, k).1),
    decreases k,
{
    if k > 0 {
        lemma_named_imports_hold_each_name_once(t, block, k - 1);
        let (names, aliases) = named_imports_before(t, block, k - 1);
        if is_child(t.nodes, block, k - 1) && t.nodes[k - 1].kind == NodeKind::ImportSpecifier {
            match (specifier_name(t.nodes, k - 1), specifier_alias(t.nodes, k - 1)) {
                (Some(name), Some(alias)) => {
                    lemma_with_alias(aliases, t.text_of(name as int), t.text_of(alias as int));
                },
                _ => {},
            }
        }
    }
}

/// The renamed entries that wait in the accumulation of exports hold each
/// name once, and so do those of every export that leaves it.
pub proof fn lemma_exports_hold_each_name_once(matches: Seq<ExportMatchView>, k: int)
    ensures
        distinct_names(state_after(matches, k).aliases),
        forall|i: int|
            0 <= i < emitted_after(matches, k).len() ==> holds_each_name_once(
                #[trigger] emitted_after(matches, k)[i],
            ),
    decreases k,
{
    if k > 0 {
        lemma_exports_hold_each_name_once(matches, k - 1);
        let state = state_after(matches, k - 1);
        let m = matches[k - 1];
        let opened = if changes_source(state, m) {
            after_flush(state, m.source)
        } else {
            state
        };
        assert(distinct_names(opened.aliases));
        match m.alias {
            Some(alias) => {
                lemma_with_alias(opened.aliases, m.name, alias);
            },
            None => {},
        }
        let joined = with_specifier(opened, m);
        assert(distinct_names(joined.aliases));
        let added = emitted(state, m);
        assert forall|i: int| 0 <= i < added.len() implies holds_each_name_once(
            #[trigger] added[i],
        ) by {}
        let before = emitted_after(matches, k - 1);
        let all = emitted_after(matches, k);
        assert forall|i: int| 0 <= i < all.len() implies holds_each_name_once(
            #[trigger] all[i],
        ) by {
            if i < before.len() {
                assert(all[i] == before[i]);
            } else {
                assert(all[i] == added[i - before.len()]);
            }
        }
    }
}

/// The files of `universe` that have not been visited.
pub open spec fn unvisited(universe: Set<Seq<char>>, visited: Seq<Seq<char>>) -> Set<Seq<char>> {
    universe.filter(|path: Seq<char>| !visited.contains(path))
}

/// Every read uses up a file: where all the paths that wait lie in a
/// finite set of files, the read of the next path leaves fewer files of
/// the set unvisited than there were. So the files of a finite set are read
/// in no more reads than the set has files, also where their imports form
/// a cycle.
pub proof fn lemma_each_read_uses_up_a_file(universe: Set<Seq<char>>, graph: GraphView)
    requires
        universe.finite(),
        forall|i: int| 0 <= i < graph.queue.len() ==> universe.contains(#[trigger] graph.queue[i]),
        next_unvisited(graph.queue, graph.visited, 0) < graph.queue.len(),
    ensures
        ({
            let path = graph.queue[next_unvisited(graph.queue, graph.visited, 0)];
            unvisited(universe, graph.visited.push(path)).len() < unvisited(
                universe,
                graph.visited,
            ).len()
        }),
{
    lemma_next_unvisited(graph.queue, graph.visited, 0);
    let path = graph.queue[next_unvisited(graph.queue, graph.visited, 0)];
    let before = unvisited(universe, graph.visited);
    let after = unvisited(universe, graph.visited.push(path));
    universe.lemma_len_filter(|p: Seq<char>| !graph.visited.contains(p));
    lemma_len_subset(before, universe);
    assert(before.finite());
    assert(before.contains(path));
    assert(graph.visited.push(path).last() == path);
    assert(!after.contains(path));
    assert forall|p: Seq<char>| after.contains(p) implies before.remove(path).contains(p) by {
        if graph.visited.contains(p) {
            let i = choose|i: int| 0 <= i < graph.visited.len() && graph.visited[i] == p;
            assert(graph.visited.push(path)[i] == p);
        }
    }
    lemma_len_subset(after, before.remove(path));
}

} // verus!
