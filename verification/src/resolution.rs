//! The files that relative imports stand for.
//!
//! Which paths exist is asked of the file system by the caller; what is
//! asked and what follows from the answers is decided here.

use vstd::prelude::*;
use crate::module::{Module, ModuleView, SymbolView, TypeScriptSymbol, text_option, text_views};
use crate::paths::{joined_path, parent_path, path_join, path_parent};
use crate::text::{starts_with, text_starts_with};

verus! {

/// The path by which a file is known, given what the file system answered
/// for a candidate path: its canonical form, if it has one, and whether
/// that is a regular file.
pub fn normalise_file_path(canonical: Option<String>, is_file: bool) -> (path: Option<String>)
    ensures
        path is Some <==> canonical is Some && is_file,
        path is Some ==> text_option(path) == text_option(canonical),
{
    match canonical {
        Some(path) => if is_file {
            Some(path)
        } else {
            None
        },
        None => None,
    }
}

/// Whether a specifier names a file relative to the importing one: it
/// begins with `./` or `../`.
pub open spec fn is_relative(specifier: Seq<char>) -> bool {
    text_starts_with(specifier, "./"@) || text_starts_with(specifier, "../"@)
}

/// The paths that `specifier` may stand for in the module at `importer`,
/// in the order in which they are tried: the specifier joined to the
/// directory of the module; that with `.d.ts` and with `.ts` after it; and
/// the files `index.d.ts` and `index.ts` below it. None where the specifier
/// is not relative or the module has no directory.
pub open spec fn import_candidates(importer: Seq<char>, specifier: Seq<char>) -> Option<
    Seq<Seq<char>>,
> {
    if is_relative(specifier) {
        match parent_path(importer) {
            Some(directory) => {
                let joined = joined_path(directory, specifier);
                Some(
                    seq![
                        joined,
                        joined + ".d.ts"@,
                        joined + ".ts"@,
                        joined_path(joined, "index.d.ts"@),
                        joined_path(joined, "index.ts"@),
                    ],
                )
            },
            None => None,
        }
    } else {
        None
    }
}

/// The paths that `import_path` may stand for in the module at
/// `importer`.
pub fn relative_import_candidates(importer: &str, import_path: &str) -> (candidates: Option<
    Vec<String>,
>)
    ensures
        match candidates {
            Some(c) => c@.len() == 5 && import_candidates(importer@, import_path@) == Some(
                text_views(c@),
            ),
            None => import_candidates(importer@, import_path@) is None,
        },
{
    if !(starts_with(import_path, "./") || starts_with(import_path, "../")) {
        return None;
    }
    match path_parent(importer) {
        Some(directory) => {
            let joined = path_join(directory.as_str(), import_path);
            let with_d_ts = joined.clone().concat(".d.ts");
            let with_ts = joined.clone().concat(".ts");
            let index_d_ts = path_join(joined.as_str(), "index.d.ts");
            let index_ts = path_join(joined.as_str(), "index.ts");
            let mut candidates: Vec<String> = Vec::new();
            candidates.push(joined);
            candidates.push(with_d_ts);
            candidates.push(with_ts);
            candidates.push(index_d_ts);
            candidates.push(index_ts);
            assert(text_views(candidates@) =~= import_candidates(
                importer@,
                import_path@,
            ).unwrap());
            Some(candidates)
        },
        None => None,
    }
}

/// What the file system says of the candidates of one import.
#[derive(Debug, PartialEq, Eq)]
pub struct ImportProbe {
    /// For each candidate, in order, the path by which the file is known if
    /// the candidate is a regular file (see [`normalise_file_path`]).
    pub files: Vec<Option<String>>,
    /// Whether the first candidate is a directory.
    pub is_directory: bool,
}

/// The value of an [`ImportProbe`].
pub struct ImportProbeView {
    pub files: Seq<Option<Seq<char>>>,
    pub is_directory: bool,
}

/// The views of a sequence of optional texts.
pub open spec fn option_views(texts: Seq<Option<String>>) -> Seq<Option<Seq<char>>> {
    Seq::new(texts.len(), |i: int| text_option(texts[i]))
}

impl View for ImportProbe {
    type V = ImportProbeView;

    open spec fn view(&self) -> ImportProbeView {
        ImportProbeView { files: option_views(self.files@), is_directory: self.is_directory }
    }
}

/// What was found for candidate `i`: nothing where the probe does not
/// speak of it.
pub open spec fn found_at(probe: ImportProbeView, i: int) -> Option<Seq<char>> {
    if 0 <= i < probe.files.len() {
        probe.files[i]
    } else {
        None
    }
}

/// The first of the candidates `from..to` that was found.
pub open spec fn first_found(probe: ImportProbeView, from: int, to: int) -> Option<Seq<char>>
    decreases to - from,
{
    if from >= to {
        None
    } else if found_at(probe, from) is Some {
        found_at(probe, from)
    } else {
        first_found(probe, from + 1, to)
    }
}

/// The file that an import with the candidates `candidates` stands for:
/// the first of the first three candidates that is a file; else, where the
/// first candidate is a directory, the first of the other candidates that is
/// a file; else the first candidate as it is, found or not.
pub open spec fn resolved_import(candidates: Seq<Seq<char>>, probe: ImportProbeView) -> Seq<char> {
    match first_found(probe, 0, 3) {
        Some(path) => path,
        None => match first_found(probe, 3, 5) {
            Some(path) => if probe.is_directory {
                path
            } else {
                candidates[0]
            },
            None => candidates[0],
        },
    }
}

/// The first of the candidates `from..to` that was found.
fn find_first(probe: &ImportProbe, from: usize, to: usize) -> (path: Option<String>)
    ensures
        text_option(path) == first_found(probe@, from as int, to as int),
{
    let mut i: usize = from;
    while i < to
        invariant
            first_found(probe@, i as int, to as int) == first_found(
                probe@,
                from as int,
                to as int,
            ),
        decreases to - i,
    {
        if i < probe.files.len() {
            match &probe.files[i] {
                Some(path) => {
                    return Some(path.clone());
                },
                None => {},
            }
        }
        i += 1;
    }
    None
}

/// The file that an import with the candidates `candidates` stands for.
pub(crate) fn resolve_candidates(candidates: &Vec<String>, probe: &ImportProbe) -> (path: String)
    requires
        candidates@.len() > 0,
    ensures
        path@ == resolved_import(text_views(candidates@), probe@),
{
    match find_first(probe, 0, 3) {
        Some(path) => path,
        None => {
            if probe.is_directory {
                match find_first(probe, 3, 5) {
                    Some(path) => path,
                    None => candidates[0].clone(),
                }
            } else {
                candidates[0].clone()
            }
        },
    }
}

/// The file that `import_path` stands for in the module at `importer`,
/// given what the file system says of its candidates. None where the
/// specifier is not relative or the module has no directory.
pub fn resolve_relative_import(importer: &str, import_path: &str, probe: &ImportProbe) -> (path:
    Option<String>)
    ensures
        match import_candidates(importer@, import_path@) {
            Some(candidates) => path matches Some(p) && p@ == resolved_import(candidates, probe@),
            None => path is None,
        },
{
    match relative_import_candidates(importer, import_path) {
        Some(candidates) => Some(resolve_candidates(&candidates, probe)),
        None => None,
    }
}

/// The module that a symbol imports from or re-exports.
pub open spec fn specifier_of(symbol: SymbolView) -> Option<Seq<char>> {
    match symbol {
        SymbolView::ModuleImport { source_module, .. } => Some(source_module),
        SymbolView::ModuleExport { source_module: Some(source), .. } => Some(source),
        _ => None,
    }
}

/// The candidates of the relative imports and re-exports among the first
/// `k` symbols of the module at `path`, in order.
pub open spec fn requests_before(symbols: Seq<SymbolView>, path: Seq<char>, k: int) -> Seq<
    Seq<Seq<char>>,
>
    decreases k,
{
    if k <= 0 {
        Seq::empty()
    } else {
        let rest = requests_before(symbols, path, k - 1);
        match specifier_of(symbols[k - 1]) {
            Some(specifier) => match import_candidates(path, specifier) {
                Some(candidates) => rest.push(candidates),
                None => rest,
            },
            None => rest,
        }
    }
}

/// The candidates of the relative imports and re-exports of a module.
pub open spec fn import_requests(module: ModuleView, path: Seq<char>) -> Seq<Seq<Seq<char>>> {
    requests_before(module.symbols, path, module.symbols.len() as int)
}

/// The views of lists of candidates.
pub open spec fn request_views(requests: Seq<Vec<String>>) -> Seq<Seq<Seq<char>>> {
    Seq::new(requests.len(), |i: int| text_views(requests[i]@))
}

/// The values of a sequence of probes.
pub open spec fn probe_views(probes: Seq<ImportProbe>) -> Seq<ImportProbeView> {
    Seq::new(probes.len(), |i: int| probes[i]@)
}

/// What the file system says of request `i`: nothing where no probe
/// speaks of it.
pub open spec fn probe_at(probes: Seq<ImportProbeView>, i: int) -> ImportProbeView {
    if 0 <= i < probes.len() {
        probes[i]
    } else {
        ImportProbeView { files: Seq::empty(), is_directory: false }
    }
}

/// The files that the first `k` requests stand for, request `i` answered
/// by probe `i`.
pub open spec fn resolved_before(
    requests: Seq<Seq<Seq<char>>>,
    probes: Seq<ImportProbeView>,
    k: int,
) -> Seq<Seq<char>>
    decreases k,
{
    if k <= 0 {
        Seq::empty()
    } else {
        resolved_before(requests, probes, k - 1).push(
            resolved_import(requests[k - 1], probe_at(probes, k - 1)),
        )
    }
}

/// The files that the relative imports and re-exports of a module stand
/// for, import `i` answered by probe `i`.
pub open spec fn imported_paths(
    module: ModuleView,
    path: Seq<char>,
    probes: Seq<ImportProbeView>,
) -> Seq<Seq<char>> {
    let requests = import_requests(module, path);
    resolved_before(requests, probes, requests.len() as int)
}

/// The module that a symbol imports from or re-exports.
fn source_of_symbol(symbol: &TypeScriptSymbol) -> (source: Option<&String>)
    ensures
        match source {
            Some(s) => specifier_of(symbol@) == Some(s@),
            None => specifier_of(symbol@) is None,
        },
{
    match symbol {
        TypeScriptSymbol::ModuleImport { source_module, .. } => Some(source_module),
        TypeScriptSymbol::ModuleExport { source_module: Some(source), .. } => Some(source),
        _ => None,
    }
}

/// The candidates of the relative imports and re-exports of `module`, which
/// stands at `path`, in the order of its symbols.
pub fn import_requests_of(module: &Module, path: &str) -> (requests: Vec<Vec<String>>)
    ensures
        request_views(requests@) == import_requests(module@, path@),
        forall|i: int| 0 <= i < requests@.len() ==> (#[trigger] requests@[i])@.len() == 5,
{
    let mut requests: Vec<Vec<String>> = Vec::new();
    let mut k: usize = 0;
    assert(request_views(requests@) =~= requests_before(module@.symbols, path@, 0));
    while k < module.symbols.len()
        invariant
            k <= module.symbols.len(),
            request_views(requests@) == requests_before(module@.symbols, path@, k as int),
            forall|i: int| 0 <= i < requests@.len() ==> (#[trigger] requests@[i])@.len() == 5,
        decreases module.symbols.len() - k,
    {
        assert(module@.symbols[k as int] == module.symbols@[k as int]@);
        match source_of_symbol(&module.symbols[k]) {
            Some(specifier) => {
                match relative_import_candidates(path, specifier.as_str()) {
                    Some(candidates) => {
                        let ghost before = requests@;
                        assert(text_views(candidates@).len() == 5);
                        requests.push(candidates);
                        assert(request_views(requests@) =~= request_views(before).push(
                            text_views(candidates@),
                        ));
                    },
                    None => {},
                }
            },
            None => {},
        }
        k += 1;
    }
    assert(module@.symbols.len() == module.symbols@.len());
    requests
}

/// The files that the requests stand for, request `i` answered by probe
/// `i`.
pub(crate) fn resolve_requests(requests: &Vec<Vec<String>>, probes: &Vec<ImportProbe>) -> (paths: Vec<
    String,
>)
    requires
        forall|i: int| 0 <= i < requests@.len() ==> (#[trigger] requests@[i])@.len() > 0,
    ensures
        text_views(paths@) == resolved_before(
            request_views(requests@),
            probe_views(probes@),
            requests@.len() as int,
        ),
{
    let mut paths: Vec<String> = Vec::new();
    let mut k: usize = 0;
    assert(text_views(paths@) =~= resolved_before(
        request_views(requests@),
        probe_views(probes@),
        0,
    ));
    while k < requests.len()
        invariant
            k <= requests.len(),
            forall|i: int| 0 <= i < requests@.len() ==> (#[trigger] requests@[i])@.len() > 0,
            text_views(paths@) == resolved_before(
                request_views(requests@),
                probe_views(probes@),
                k as int,
            ),
        decreases requests.len() - k,
    {
        let path = if k < probes.len() {
            resolve_candidates(&requests[k], &probes[k])
        } else {
            let nothing = ImportProbe { files: Vec::new(), is_directory: false };
            assert(nothing@.files =~= Seq::empty());
            resolve_candidates(&requests[k], &nothing)
        };
        let ghost before = paths@;
        paths.push(path);
        assert(text_views(paths@) =~= text_views(before).push(path@));
        k += 1;
    }
    paths
}

/// The files that the relative imports and re-exports of `module`, which
/// stands at `path`, stand for, in the order of its symbols; import `i`
/// answered by probe `i`.
pub fn get_imported_module_paths(module: &Module, path: &str, probes: &Vec<ImportProbe>) -> (paths:
    Vec<String>)
    ensures
        text_views(paths@) == imported_paths(module@, path@, probe_views(probes@)),
{
    let requests = import_requests_of(module, path);
    resolve_requests(&requests, probes)
}

} // verus!
