//! The accumulation of export statements.
//!
//! The syntax tree gives the named exports of a statement one specifier at a
//! time. The specifiers are gathered, with the module that they name, until
//! the statement ends or another module is named, and then leave as one
//! export.

use vstd::prelude::*;
use crate::aliases::{insert_alias, with_alias};
use crate::module::{
    ExportTarget, ExportTargetView, SymbolView, TypeScriptSymbol, clone_text_option, pair_views,
    symbol_views, text_option, text_views,
};
use crate::text::text_eq;

verus! {

/// The forms of export that the extraction tells apart.
#[derive(Clone, Copy, Debug, PartialEq, Eq, Structural)]
pub enum ExportForm {
    /// One specifier of `export { a, b as c }`, with or without `from`.
    Specifier,
    /// `export = name`.
    CommonJs,
    /// `export * as name from 'module'`.
    Namespace,
    /// `export * from 'module'`.
    Barrel,
}

/// One thing that an export statement exports.
#[derive(Debug, PartialEq, Eq)]
pub struct ExportMatch {
    pub form: ExportForm,
    /// The exported name. A barrel export has none: the text is empty.
    pub name: String,
    /// The alias of a specifier that renames.
    pub alias: Option<String>,
    /// The module that the statement names after `from`.
    pub source: Option<String>,
    /// Whether no further named node follows a specifier in its statement.
    pub is_last: bool,
}

/// The value of an [`ExportMatch`].
pub struct ExportMatchView {
    pub form: ExportForm,
    pub name: Seq<char>,
    pub alias: Option<Seq<char>>,
    pub source: Option<Seq<char>>,
    pub is_last: bool,
}

impl View for ExportMatch {
    type V = ExportMatchView;

    open spec fn view(&self) -> ExportMatchView {
        ExportMatchView {
            form: self.form,
            name: self.name@,
            alias: text_option(self.alias),
            source: text_option(self.source),
            is_last: self.is_last,
        }
    }
}

/// The values of a sequence of matches.
pub open spec fn match_views(matches: Seq<ExportMatch>) -> Seq<ExportMatchView> {
    Seq::new(matches.len(), |i: int| matches[i]@)
}

/// The specifiers that wait for the end of their statement.
pub struct ExportAccumulator {
    pub names: Vec<String>,
    pub aliases: Vec<(String, String)>,
    pub source: Option<String>,
}

/// The value of an [`ExportAccumulator`].
pub struct ExportState {
    pub names: Seq<Seq<char>>,
    pub aliases: Seq<(Seq<char>, Seq<char>)>,
    pub source: Option<Seq<char>>,
}

impl View for ExportAccumulator {
    type V = ExportState;

    open spec fn view(&self) -> ExportState {
        ExportState {
            names: text_views(self.names@),
            aliases: pair_views(self.aliases@),
            source: text_option(self.source),
        }
    }
}

/// The state in which nothing waits.
pub open spec fn empty_state() -> ExportState {
    ExportState { names: Seq::empty(), aliases: Seq::empty(), source: None }
}

/// The export that leaves when the waiting names are flushed: none where no
/// name waits.
pub open spec fn flushed(state: ExportState) -> Seq<SymbolView> {
    if state.names.len() > 0 {
        seq![
            SymbolView::ModuleExport {
                source_module: state.source,
                target: ExportTargetView::Named { names: state.names, aliases: state.aliases },
            },
        ]
    } else {
        Seq::empty()
    }
}

/// The state after a flush that then names `source`: no name waits, and
/// the renamed entries are gone with the names.
pub open spec fn after_flush(state: ExportState, source: Option<Seq<char>>) -> ExportState {
    if state.names.len() > 0 {
        ExportState { names: Seq::empty(), aliases: Seq::empty(), source }
    } else {
        ExportState { names: state.names, aliases: state.aliases, source }
    }
}

/// The state in which the specifier of `m` waits with those that waited.
pub open spec fn with_specifier(state: ExportState, m: ExportMatchView) -> ExportState {
    ExportState {
        names: state.names.push(m.name),
        aliases: match m.alias {
            Some(alias) => with_alias(state.aliases, m.name, alias),
            None => state.aliases,
        },
        source: state.source,
    }
}

/// Whether the names that wait leave before `m` joins: `m` names another
/// module than they do.
pub open spec fn changes_source(state: ExportState, m: ExportMatchView) -> bool {
    m.source != state.source
}

/// Whether the names that wait leave once `m` has joined: `m` is a
/// CommonJS export or the last specifier of its statement.
pub open spec fn ends_statement(m: ExportMatchView) -> bool {
    m.form == ExportForm::CommonJs || m.is_last
}

/// The state after `m`.
pub open spec fn next_state(state: ExportState, m: ExportMatchView) -> ExportState {
    if m.form == ExportForm::Barrel || m.form == ExportForm::Namespace {
        state
    } else {
        let opened = if changes_source(state, m) {
            after_flush(state, m.source)
        } else {
            state
        };
        let joined = with_specifier(opened, m);
        if ends_statement(m) {
            after_flush(joined, None)
        } else {
            joined
        }
    }
}

/// The exports that leave at `m`.
pub open spec fn emitted(state: ExportState, m: ExportMatchView) -> Seq<SymbolView> {
    if m.form == ExportForm::Barrel {
        seq![SymbolView::ModuleExport { source_module: m.source, target: ExportTargetView::Barrel }]
    } else if m.form == ExportForm::Namespace {
        seq![
            SymbolView::ModuleExport {
                source_module: m.source,
                target: ExportTargetView::Namespace { name: m.name },
            },
        ]
    } else {
        let first = if changes_source(state, m) {
            flushed(state)
        } else {
            Seq::empty()
        };
        let opened = if changes_source(state, m) {
            after_flush(state, m.source)
        } else {
            state
        };
        if ends_statement(m) {
            first + flushed(with_specifier(opened, m))
        } else {
            first
        }
    }
}

/// The state after the first `k` matches, from the empty state.
pub open spec fn state_after(matches: Seq<ExportMatchView>, k: int) -> ExportState
    decreases k,
{
    if k <= 0 {
        empty_state()
    } else {
        next_state(state_after(matches, k - 1), matches[k - 1])
    }
}

/// The exports that have left after the first `k` matches.
pub open spec fn emitted_after(matches: Seq<ExportMatchView>, k: int) -> Seq<SymbolView>
    decreases k,
{
    if k <= 0 {
        Seq::empty()
    } else {
        emitted_after(matches, k - 1) + emitted(state_after(matches, k - 1), matches[k - 1])
    }
}

/// The exports that a sequence of matches gives. Names that still wait
/// after the last match do not leave.
pub open spec fn accumulated_exports(matches: Seq<ExportMatchView>) -> Seq<SymbolView> {
    emitted_after(matches, matches.len() as int)
}

/// Whether two optional texts are equal.
pub fn text_option_eq(a: &Option<String>, b: &Option<String>) -> (equal: bool)
    ensures
        equal == (text_option(*a) == text_option(*b)),
{
    match (a, b) {
        (Some(x), Some(y)) => text_eq(x.as_str(), y.as_str()),
        (None, None) => true,
        _ => false,
    }
}

impl ExportAccumulator {
    /// The accumulator in which nothing waits.
    pub fn new() -> (accumulator: ExportAccumulator)
        ensures
            accumulator@ == empty_state(),
    {
        let accumulator = ExportAccumulator {
            names: Vec::new(),
            aliases: Vec::new(),
            source: None,
        };
        assert(accumulator@.names =~= Seq::empty());
        assert(accumulator@.aliases =~= Seq::empty());
        accumulator
    }

    /// Lets the names that wait leave as one export to `exports`, and then
    /// names `source`. Does nothing to `exports` where no name waits.
    pub fn emit_accumulated_exports(
        &mut self,
        exports: &mut Vec<TypeScriptSymbol>,
        source: Option<String>,
    )
        ensures
            symbol_views(final(exports)@) == symbol_views(old(exports)@) + flushed(old(self)@),
            final(self)@ == after_flush(old(self)@, text_option(source)),
    {
        if self.names.len() > 0 {
            let mut names: Vec<String> = Vec::new();
            let mut aliases: Vec<(String, String)> = Vec::new();
            std::mem::swap(&mut names, &mut self.names);
            std::mem::swap(&mut aliases, &mut self.aliases);
            let mut waiting: Option<String> = source;
            std::mem::swap(&mut waiting, &mut self.source);
            let export = TypeScriptSymbol::ModuleExport {
                source_module: waiting,
                target: ExportTarget::Named { names, aliases },
            };
            let ghost before = exports@;
            exports.push(export);
            assert(symbol_views(exports@) =~= symbol_views(before).push(export@));
            assert(symbol_views(exports@) =~= symbol_views(before) + flushed(old(self)@));
            assert(self@.names =~= Seq::empty());
            assert(self@.aliases =~= Seq::empty());
        } else {
            self.source = source;
            assert(symbol_views(exports@) =~= symbol_views(exports@) + flushed(old(self)@));
        }
    }

    /// Takes one match: lets what leaves at it leave to `exports`, and
    /// keeps what waits.
    pub fn accept(&mut self, m: &ExportMatch, exports: &mut Vec<TypeScriptSymbol>)
        ensures
            final(self)@ == next_state(old(self)@, m@),
            symbol_views(final(exports)@) == symbol_views(old(exports)@) + emitted(old(self)@, m@),
    {
        let ghost start = exports@;
        let ghost state = self@;
        let ghost view = m@;
        let form = m.form;
        let name = m.name.clone();
        let alias = clone_text_option(&m.alias);
        let source = clone_text_option(&m.source);
        let is_last = m.is_last;
        match form {
            ExportForm::Barrel => {
                let export = TypeScriptSymbol::ModuleExport {
                    source_module: source,
                    target: ExportTarget::Barrel,
                };
                exports.push(export);
                assert(symbol_views(exports@) =~= symbol_views(start) + emitted(state, view));
            },
            ExportForm::Namespace => {
                let export = TypeScriptSymbol::ModuleExport {
                    source_module: source,
                    target: ExportTarget::Namespace { name },
                };
                exports.push(export);
                assert(symbol_views(exports@) =~= symbol_views(start) + emitted(state, view));
            },
            _ => {
                if !text_option_eq(&source, &self.source) {
                    self.emit_accumulated_exports(exports, source);
                }
                let ghost opened = self@;
                let ghost middle = exports@;
                let ghost waiting = self.names@;
                match alias {
                    Some(alias) => {
                        self.names.push(name.clone());
                        insert_alias(&mut self.aliases, name, alias);
                    },
                    None => {
                        self.names.push(name);
                    },
                }
                assert(text_views(self.names@) =~= text_views(waiting).push(view.name));
                assert(self@ == with_specifier(opened, view));
                if form == ExportForm::CommonJs || is_last {
                    self.emit_accumulated_exports(exports, None);
                    assert(symbol_views(exports@) =~= symbol_views(start) + emitted(state, view));
                } else {
                    assert(symbol_views(exports@) =~= symbol_views(start) + emitted(state, view));
                }
            },
        }
    }
}

/// The exports that a sequence of matches gives, in order.
pub fn accumulate_exports(matches: &Vec<ExportMatch>) -> (exports: Vec<TypeScriptSymbol>)
    ensures
        symbol_views(exports@) == accumulated_exports(match_views(matches@)),
{
    let ghost views = match_views(matches@);
    let mut exports: Vec<TypeScriptSymbol> = Vec::new();
    let mut accumulator = ExportAccumulator::new();
    let mut k: usize = 0;
    assert(symbol_views(exports@) =~= emitted_after(views, 0));
    while k < matches.len()
        invariant
            k <= matches.len(),
            views == match_views(matches@),
            accumulator@ == state_after(views, k as int),
            symbol_views(exports@) == emitted_after(views, k as int),
        decreases matches.len() - k,
    {
        accumulator.accept(&matches[k], &mut exports);
        k += 1;
    }
    exports
}

} // verus!
