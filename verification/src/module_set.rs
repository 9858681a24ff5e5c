//! The modules that can be reached from the entry points of a library.
//!
//! The traversal reads files and asks the file system which paths exist;
//! both are done by the caller. [`ModuleGraph`] decides what is read next
//! and what is asked, and takes the answers:
//!
//! 1. [`ModuleGraph::next`] gives the path to read, or the finished set;
//! 2. [`PendingRead::loaded`] takes the text of the file and gives, for each
//!    relative import or re-export, the paths that it may stand for;
//! 3. [`PendingProbe::probed`] takes what the file system says of those
//!    paths, and queues the files that the imports stand for.

use std::collections::VecDeque;
use vstd::prelude::*;
use crate::error::ExtractionError;
use crate::module::{Module, ModuleView, text_views};
use crate::parsing::{module_from_tree, module_of};
use crate::reader::{parse_failure, parse_tree};
use crate::resolution::{
    ImportProbe, import_requests, import_requests_of, probe_views, request_views, resolve_requests,
    resolved_before,
};
use crate::text::text_eq;
use crate::tree::{SyntaxTree, TreeView};

verus! {

/// The values of a sequence of modules.
pub open spec fn module_views(modules: Seq<Module>) -> Seq<ModuleView> {
    Seq::new(modules.len(), |i: int| modules[i]@)
}

/// No two of the modules stand at the same path.
pub open spec fn distinct_paths(modules: Seq<ModuleView>) -> bool {
    forall|i: int, j: int|
        0 <= i < j < modules.len() ==> (#[trigger] modules[i]).path != (#[trigger] modules[j]).path
}

/// Whether one of the texts is `text`.
fn contains_text(texts: &Vec<String>, text: &str) -> (found: bool)
    ensures
        found == text_views(texts@).contains(text@),
{
    let mut i: usize = 0;
    while i < texts.len()
        invariant
            i <= texts.len(),
            forall|k: int| 0 <= k < i ==> text_views(texts@)[k] != text@,
        decreases texts.len() - i,
    {
        if text_eq(texts[i].as_str(), text) {
            assert(text_views(texts@)[i as int] == text@);
            return true;
        }
        i += 1;
    }
    false
}

/// A set of modules, each known by the path of its file. No two modules
/// of a set stand at the same path.
#[derive(Debug)]
pub struct ModuleSet {
    modules: Vec<Module>,
}

impl ModuleSet {
    /// The modules, in the order in which they were read.
    pub closed spec fn modules(&self) -> Seq<ModuleView> {
        module_views(self.modules@)
    }

    /// No two modules stand at the same path.
    pub open spec fn wf(&self) -> bool {
        distinct_paths(self.modules())
    }

    /// The empty set.
    pub fn new() -> (set: ModuleSet)
        ensures
            set.wf(),
            set.modules().len() == 0,
    {
        ModuleSet { modules: Vec::new() }
    }

    /// The number of modules.
    pub fn len(&self) -> (n: usize)
        ensures
            n == self.modules().len(),
    {
        self.modules.len()
    }

    /// Whether the set holds no module.
    pub fn is_empty(&self) -> (empty: bool)
        ensures
            empty == (self.modules().len() == 0),
    {
        self.modules.len() == 0
    }

    /// The module at `path`, if the set holds one.
    pub fn get(&self, path: &str) -> (module: Option<&Module>)
        ensures
            match module {
                Some(m) => m@.path == path@ && self.modules().contains(m@),
                None => forall|i: int|
                    0 <= i < self.modules().len() ==> (#[trigger] self.modules()[i]).path
                        != path@,
            },
    {
        let mut i: usize = 0;
        while i < self.modules.len()
            invariant
                i <= self.modules.len(),
                forall|k: int| 0 <= k < i ==> (#[trigger] self.modules()[k]).path != path@,
            decreases self.modules.len() - i,
        {
            if text_eq(self.modules[i].path.as_str(), path) {
                assert(self.modules()[i as int] == self.modules@[i as int]@);
                return Some(&self.modules[i]);
            }
            i += 1;
        }
        None
    }

    /// Whether the set holds a module at `path`.
    pub fn contains_key(&self, path: &str) -> (held: bool)
        ensures
            held == exists|i: int|
                0 <= i < self.modules().len() && (#[trigger] self.modules()[i]).path == path@,
    {
        let found = self.get(path);
        proof {
            if found is Some {
                let m = found.unwrap()@;
                let i = choose|i: int| 0 <= i < self.modules().len() && self.modules()[i] == m;
                assert(self.modules()[i].path == path@);
            }
        }
        found.is_some()
    }

    /// Module `i`, in the order in which the modules were read.
    pub fn module(&self, i: usize) -> (module: &Module)
        requires
            i < self.modules().len(),
        ensures
            module@ == self.modules()[i as int],
    {
        &self.modules[i]
    }
}

impl Default for ModuleSet {
    fn default() -> (set: ModuleSet)
        ensures
            set.wf(),
            set.modules().len() == 0,
    {
        ModuleSet::new()
    }
}

/// The value of a [`ModuleGraph`].
pub struct GraphView {
    /// The paths that wait to be read, first in, first out.
    pub queue: Seq<Seq<char>>,
    /// The paths that have left the queue to be read.
    pub visited: Seq<Seq<char>>,
    /// The modules read so far.
    pub modules: Seq<ModuleView>,
}

impl GraphView {
    /// No two modules stand at the same path, and the path of every module
    /// has been visited.
    pub open spec fn wf(self) -> bool {
        &&& distinct_paths(self.modules)
        &&& forall|i: int|
            0 <= i < self.modules.len() ==> self.visited.contains(
                (#[trigger] self.modules[i]).path,
            )
    }
}

/// The place of the first path from `k` on in the queue that has not been
/// visited, or the length of the queue if all have been.
pub open spec fn next_unvisited(queue: Seq<Seq<char>>, visited: Seq<Seq<char>>, k: int) -> int
    decreases queue.len() - k,
{
    if k < 0 || k >= queue.len() {
        queue.len() as int
    } else if !visited.contains(queue[k]) {
        k
    } else {
        next_unvisited(queue, visited, k + 1)
    }
}

/// The traversal of the modules that can be reached from the entry points.
pub struct ModuleGraph {
    queue: VecDeque<String>,
    visited: Vec<String>,
    modules: Vec<Module>,
}

/// A traversal that waits for the text of the file at a path.
pub struct PendingRead {
    graph: ModuleGraph,
    path: String,
}

/// A traversal that waits for what the file system says of the candidates
/// of the imports of the module just read.
pub struct PendingProbe {
    graph: ModuleGraph,
    requests: Vec<Vec<String>>,
}

/// What the traversal does next.
pub enum Step {
    /// The file at the path of the pending read is to be read.
    Read(PendingRead),
    /// Nothing waits: the set is complete.
    Done(ModuleSet),
}

impl View for ModuleGraph {
    type V = GraphView;

    closed spec fn view(&self) -> GraphView {
        GraphView {
            queue: text_views(self.queue@),
            visited: text_views(self.visited@),
            modules: module_views(self.modules@),
        }
    }
}

impl ModuleGraph {
    /// The traversal that starts from the files at `entry_points`: they
    /// wait in the queue, in order, and nothing has been read.
    pub fn new(entry_points: Vec<String>) -> (graph: ModuleGraph)
        ensures
            graph@.wf(),
            graph@.queue == text_views(entry_points@),
            graph@.visited.len() == 0,
            graph@.modules.len() == 0,
    {
        let mut queue: VecDeque<String> = VecDeque::new();
        let mut i: usize = 0;
        while i < entry_points.len()
            invariant
                i <= entry_points.len(),
                queue@.len() == i,
                forall|k: int| 0 <= k < i ==> queue@[k]@ == entry_points@[k]@,
            decreases entry_points.len() - i,
        {
            queue.push_back(entry_points[i].clone());
            i += 1;
        }
        let graph = ModuleGraph { queue, visited: Vec::new(), modules: Vec::new() };
        assert(graph@.queue =~= text_views(entry_points@));
        graph
    }

    /// Takes paths from the queue until one has not been visited. That
    /// path is then visited and is to be read; where none is left, the set
    /// of the modules read is complete.
    pub fn next(self) -> (step: Step)
        requires
            self@.wf(),
        ensures
            ({
                let at = next_unvisited(self@.queue, self@.visited, 0);
                match step {
                    Step::Read(pending) => {
                        &&& at < self@.queue.len()
                        &&& pending.path() == self@.queue[at]
                        &&& !self@.visited.contains(pending.path())
                        &&& pending.graph() == GraphView {
                            queue: self@.queue.subrange(at + 1, self@.queue.len() as int),
                            visited: self@.visited.push(pending.path()),
                            modules: self@.modules,
                        }
                        &&& pending.wf()
                    },
                    Step::Done(set) => {
                        &&& at == self@.queue.len()
                        &&& set.modules() == self@.modules
                        &&& set.wf()
                    },
                }
            }),
    {
        let ghost start = self@;
        let ModuleGraph { mut queue, mut visited, modules } = self;
        let ghost mut taken: int = 0;
        loop
            invariant
                0 <= taken <= start.queue.len(),
                start == self@,
                start.wf(),
                text_views(queue@) == start.queue.subrange(taken, start.queue.len() as int),
                text_views(visited@) == start.visited,
                module_views(modules@) == start.modules,
                next_unvisited(start.queue, start.visited, taken) == next_unvisited(
                    start.queue,
                    start.visited,
                    0,
                ),
            decreases start.queue.len() - taken,
        {
            let ghost waiting = queue@;
            assert(text_views(waiting).len() == waiting.len());
            match queue.pop_front() {
                None => {
                    assert(taken == start.queue.len());
                    return Step::Done(ModuleSet { modules });
                },
                Some(path) => {
                    assert(taken < start.queue.len());
                    assert(text_views(waiting)[0] == path@);
                    assert(start.queue[taken] == path@);
                    assert(text_views(queue@) =~= text_views(waiting).subrange(
                        1,
                        waiting.len() as int,
                    ));
                    if contains_text(&visited, path.as_str()) {
                        proof {
                            assert(text_views(queue@) =~= start.queue.subrange(
                                taken + 1,
                                start.queue.len() as int,
                            ));
                            taken = taken + 1;
                        }
                    } else {
                        let ghost seen = visited@;
                        visited.push(path.clone());
                        assert(text_views(visited@) =~= text_views(seen).push(path@));
                        assert(text_views(queue@) =~= start.queue.subrange(
                            taken + 1,
                            start.queue.len() as int,
                        ));
                        let graph = ModuleGraph { queue, visited, modules };
                        let pending = PendingRead { graph, path };
                        proof {
                            let after = pending.graph();
                            assert(after.visited.last() == pending.path());
                            assert forall|i: int| 0 <= i < after.modules.len() implies after.visited.contains(
                                (#[trigger] after.modules[i]).path,
                            ) by {
                                let p = after.modules[i].path;
                                assert(start.visited.contains(p));
                                let w = choose|w: int|
                                    0 <= w < start.visited.len() && start.visited[w] == p;
                                assert(after.visited[w] == p);
                            }
                        }
                        return Step::Read(pending);
                    }
                },
            }
        }
    }
}

impl PendingRead {
    /// The path of the file that is to be read.
    pub closed spec fn path(&self) -> Seq<char> {
        self.path@
    }

    /// The traversal that waits.
    pub closed spec fn graph(&self) -> GraphView {
        self.graph@
    }

    /// The traversal is well formed, the path has been visited, and no
    /// module read so far stands at it.
    pub open spec fn wf(&self) -> bool {
        &&& self.graph().wf()
        &&& self.graph().visited.contains(self.path())
        &&& forall|i: int|
            0 <= i < self.graph().modules.len() ==> (#[trigger] self.graph().modules[i]).path
                != self.path()
    }

    /// The path of the file that is to be read.
    pub fn file_path(&self) -> (path: &str)
        ensures
            path@ == self.path(),
    {
        self.path.as_str()
    }

    /// The error for a file that could not be read, for the reason that
    /// the file system gave. Its message names the path.
    pub fn unreadable(self, reason: &str) -> (error: ExtractionError)
        ensures
            error matches ExtractionError::Io(message) && message@ == "Failed to read file at '"@
                + self.path() + "': "@ + reason@,
    {
        let message = "Failed to read file at '".to_owned().concat(self.path.as_str()).concat(
            "': ",
        ).concat(reason);
        ExtractionError::Io(message)
    }

    /// Takes the syntax tree of the file: the module extracted from it
    /// joins the modules read, and the candidates of its relative imports
    /// and re-exports are what is to be asked of the file system.
    pub fn parsed(self, tree: &SyntaxTree) -> (probing: PendingProbe)
        requires
            self.wf(),
            tree.wf(),
        ensures
            probing.wf(),
            probing.graph() == (GraphView {
                queue: self.graph().queue,
                visited: self.graph().visited,
                modules: self.graph().modules.push(module_of(tree@, self.path())),
            }),
            probing.requests() == import_requests(module_of(tree@, self.path()), self.path()),
    {
        let PendingRead { graph, path } = self;
        let ModuleGraph { queue, visited, mut modules } = graph;
        let module = module_from_tree(tree, path.clone());
        let requests = import_requests_of(&module, path.as_str());
        let ghost before = modules@;
        let ghost view = module@;
        modules.push(module);
        assert(module_views(modules@) =~= module_views(before).push(view));
        PendingProbe { graph: ModuleGraph { queue, visited, modules }, requests }
    }

    /// Parses the text of the file and takes its syntax tree, as
    /// [`PendingRead::parsed`] does.
    ///
    /// Fails with `Malformed` if the text has a syntax error or the parser
    /// gives no tree.
    pub fn loaded(self, content: &str, parser: &mut tree_sitter::Parser) -> (probing: Result<
        PendingProbe,
        ExtractionError,
    >)
        requires
            self.wf(),
        ensures
            match probing {
                Ok(p) => p.wf() && exists|t: TreeView|
                    t.wf() && t.text == content@ && p.graph() == (GraphView {
                        queue: self.graph().queue,
                        visited: self.graph().visited,
                        modules: self.graph().modules.push(
                            #[trigger] module_of(t, self.path()),
                        ),
                    }) && p.requests() == import_requests(
                        module_of(t, self.path()),
                        self.path(),
                    ),
                Err(e) => e matches ExtractionError::Malformed(message) && message@
                    == parse_failure(),
            },
    {
        match parse_tree(content, parser) {
            Ok(tree) => Ok(self.parsed(&tree)),
            Err(e) => Err(e),
        }
    }
}

impl PendingProbe {
    /// The traversal that waits.
    pub closed spec fn graph(&self) -> GraphView {
        self.graph@
    }

    /// The candidates of each relative import and re-export of the module
    /// just read.
    pub closed spec fn requests(&self) -> Seq<Seq<Seq<char>>> {
        request_views(self.requests@)
    }

    /// The traversal is well formed and every import has candidates.
    pub closed spec fn wf(&self) -> bool {
        &&& self.graph@.wf()
        &&& forall|i: int| 0 <= i < self.requests@.len() ==> (#[trigger] self.requests@[i])@.len() > 0
    }

    /// The candidates of each relative import and re-export of the module
    /// just read, in the order of its symbols.
    pub fn candidates(&self) -> (requests: &Vec<Vec<String>>)
        ensures
            request_views(requests@) == self.requests(),
    {
        &self.requests
    }

    /// Takes what the file system says of the candidates, import `i`
    /// answered by probe `i`: the files that the imports stand for join
    /// the queue, in order.
    pub fn probed(self, probes: &Vec<ImportProbe>) -> (graph: ModuleGraph)
        requires
            self.wf(),
        ensures
            graph@.wf(),
            graph@ == (GraphView {
                queue: self.graph().queue + resolved_before(
                    self.requests(),
                    probe_views(probes@),
                    self.requests().len() as int,
                ),
                visited: self.graph().visited,
                modules: self.graph().modules,
            }),
    {
        let PendingProbe { graph, requests } = self;
        let ModuleGraph { mut queue, visited, modules } = graph;
        let paths = resolve_requests(&requests, probes);
        let ghost waiting = text_views(queue@);
        let mut i: usize = 0;
        while i < paths.len()
            invariant
                i <= paths.len(),
                text_views(queue@) == waiting + text_views(paths@).subrange(0, i as int),
            decreases paths.len() - i,
        {
            let ghost before = queue@;
            queue.push_back(paths[i].clone());
            assert(text_views(queue@) =~= text_views(before).push(paths@[i as int]@));
            assert(text_views(queue@) =~= waiting + text_views(paths@).subrange(0, i + 1));
            i += 1;
        }
        assert(text_views(paths@).subrange(0, paths@.len() as int) =~= text_views(paths@));
        ModuleGraph { queue, visited, modules }
    }
}

} // verus!
