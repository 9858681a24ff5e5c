//! What is extracted from a module: its symbols, imports and exports.

use vstd::prelude::*;

verus! {

/// The view of an optional text.
pub open spec fn text_option(text: Option<String>) -> Option<Seq<char>> {
    match text {
        Some(t) => Some(t@),
        None => None,
    }
}

/// The views of a sequence of texts.
pub open spec fn text_views(texts: Seq<String>) -> Seq<Seq<char>> {
    Seq::new(texts.len(), |i: int| texts[i]@)
}

/// The views of a sequence of pairs of texts.
pub open spec fn pair_views(pairs: Seq<(String, String)>) -> Seq<(Seq<char>, Seq<char>)> {
    Seq::new(pairs.len(), |i: int| (pairs[i].0@, pairs[i].1@))
}

/// A declaration with the source text that declares it.
#[derive(Debug, PartialEq, Eq, Hash)]
pub struct Symbol {
    pub name: String,
    pub source_code: String,
}

/// The target of an import in a TypeScript module.
#[derive(Debug, PartialEq, Eq, Hash)]
pub enum ImportTarget {
    /// The default export from another module (e.g. `import React from 'react';`).
    Default {
        /// The name given to the default export (e.g. `React`).
        name: String,
    },
    /// A namespace import from another module (e.g. `import * as React from 'react';`).
    Namespace {
        /// The name of the namespace (e.g. `React`).
        name: String,
    },
    /// A named import from another module (e.g. `import { useState } from 'react';`).
    Named {
        /// The imported names, in the order of the statement.
        names: Vec<String>,
        /// The renamed entries, each imported name with its alias, in the
        /// order in which the names were first renamed. No name stands twice.
        aliases: Vec<(String, String)>,
    },
}

/// The target of an export in a TypeScript module.
#[derive(Debug, PartialEq, Eq, Hash)]
pub enum ExportTarget {
    /// A namespace export from another module (e.g. `export * as React from 'react';`).
    Namespace {
        /// The name of the namespace (e.g. `React`).
        name: String,
    },
    /// A named export (e.g. `export { useState } from 'react';`).
    Named {
        /// The exported names, in the order of the statement.
        names: Vec<String>,
        /// The renamed entries, each exported name with its alias, in the
        /// order in which the names were first renamed. No name stands twice.
        aliases: Vec<(String, String)>,
    },
    /// A barrel export from another module (e.g. `export * from './module.js';`).
    Barrel,
}

/// A symbol in a TypeScript module.
#[derive(Debug, PartialEq, Eq, Hash)]
pub enum TypeScriptSymbol {
    /// A declaration (class, interface, function, variable, type alias, enum).
    Symbol {
        symbol: Symbol,
        /// Whether the symbol was exported when declared.
        is_exported: bool,
    },
    /// A TypeScript namespace.
    Namespace {
        name: String,
        jsdoc: Option<String>,
        content: Vec<TypeScriptSymbol>,
        /// Whether the namespace was exported when declared.
        is_exported: bool,
    },
    /// An import from another module (e.g. `import Foo from './foo.js';`).
    ///
    /// A statement with several kinds of target gives one import for each.
    ModuleImport {
        /// The module from which symbols are imported (e.g. `./foo.js`).
        source_module: String,
        target: ImportTarget,
    },
    /// An export (e.g. `export { Foo } from './foo.js';`).
    ModuleExport {
        /// The module from which symbols are exported (e.g. `./foo.js`), or
        /// `None` when the names were declared or imported in the file itself.
        source_module: Option<String>,
        target: ExportTarget,
    },
}

/// A TypeScript module (i.e. a file).
#[derive(Debug, PartialEq, Eq, Hash)]
pub struct Module {
    pub path: String,
    pub jsdoc: Option<String>,
    pub symbols: Vec<TypeScriptSymbol>,
    pub default_export_name: Option<String>,
}

/// The value of an [`ImportTarget`].
pub enum ImportTargetView {
    Default { name: Seq<char> },
    Namespace { name: Seq<char> },
    Named { names: Seq<Seq<char>>, aliases: Seq<(Seq<char>, Seq<char>)> },
}

/// The value of an [`ExportTarget`].
pub enum ExportTargetView {
    Namespace { name: Seq<char> },
    Named { names: Seq<Seq<char>>, aliases: Seq<(Seq<char>, Seq<char>)> },
    Barrel,
}

/// The value of a [`TypeScriptSymbol`].
pub enum SymbolView {
    Symbol { name: Seq<char>, source_code: Seq<char>, is_exported: bool },
    Namespace {
        name: Seq<char>,
        jsdoc: Option<Seq<char>>,
        content: Seq<SymbolView>,
        is_exported: bool,
    },
    ModuleImport { source_module: Seq<char>, target: ImportTargetView },
    ModuleExport { source_module: Option<Seq<char>>, target: ExportTargetView },
}

/// The value of a [`Module`].
pub struct ModuleView {
    pub path: Seq<char>,
    pub jsdoc: Option<Seq<char>>,
    pub symbols: Seq<SymbolView>,
    pub default_export_name: Option<Seq<char>>,
}

impl View for ImportTarget {
    type V = ImportTargetView;

    open spec fn view(&self) -> ImportTargetView {
        match self {
            ImportTarget::Default { name } => ImportTargetView::Default { name: name@ },
            ImportTarget::Namespace { name } => ImportTargetView::Namespace { name: name@ },
            ImportTarget::Named { names, aliases } => ImportTargetView::Named {
                names: text_views(names@),
                aliases: pair_views(aliases@),
            },
        }
    }
}

impl View for ExportTarget {
    type V = ExportTargetView;

    open spec fn view(&self) -> ExportTargetView {
        match self {
            ExportTarget::Namespace { name } => ExportTargetView::Namespace { name: name@ },
            ExportTarget::Named { names, aliases } => ExportTargetView::Named {
                names: text_views(names@),
                aliases: pair_views(aliases@),
            },
            ExportTarget::Barrel => ExportTargetView::Barrel,
        }
    }
}

/// The value of a symbol.
pub open spec fn symbol_view(symbol: TypeScriptSymbol) -> SymbolView
    decreases symbol, 0nat,
{
    match symbol {
        TypeScriptSymbol::Symbol { symbol, is_exported } => SymbolView::Symbol {
            name: symbol.name@,
            source_code: symbol.source_code@,
            is_exported,
        },
        TypeScriptSymbol::Namespace { name, jsdoc, content, is_exported } => SymbolView::Namespace {
            name: name@,
            jsdoc: text_option(jsdoc),
            content: symbol_views_before(content, content@.len() as int),
            is_exported,
        },
        TypeScriptSymbol::ModuleImport { source_module, target } => SymbolView::ModuleImport {
            source_module: source_module@,
            target: target@,
        },
        TypeScriptSymbol::ModuleExport { source_module, target } => SymbolView::ModuleExport {
            source_module: text_option(source_module),
            target: target@,
        },
    }
}

/// The values of the first `k` of the symbols.
pub open spec fn symbol_views_before(symbols: Vec<TypeScriptSymbol>, k: int) -> Seq<SymbolView>
    decreases symbols, 1nat, k,
{
    if k <= 0 || k > symbols@.len() {
        Seq::empty()
    } else {
        symbol_views_before(symbols, k - 1).push(symbol_view(symbols@[k - 1]))
    }
}

impl View for TypeScriptSymbol {
    type V = SymbolView;

    open spec fn view(&self) -> SymbolView {
        symbol_view(*self)
    }
}

/// The values of a sequence of symbols.
pub open spec fn symbol_views(symbols: Seq<TypeScriptSymbol>) -> Seq<SymbolView> {
    Seq::new(symbols.len(), |i: int| symbols[i]@)
}

/// The values of the first symbols of a list, one by one.
pub proof fn lemma_symbol_views_before(symbols: Vec<TypeScriptSymbol>, k: int)
    requires
        0 <= k <= symbols@.len(),
    ensures
        symbol_views_before(symbols, k) == symbol_views(symbols@.subrange(0, k)),
    decreases k,
{
    if k > 0 {
        lemma_symbol_views_before(symbols, k - 1);
        assert(symbol_views(symbols@.subrange(0, k)) =~= symbol_views(
            symbols@.subrange(0, k - 1),
        ).push(symbols@[k - 1]@));
    } else {
        assert(symbol_views(symbols@.subrange(0, k)) =~= Seq::empty());
    }
}

/// The content of a namespace has the values of the symbols that it holds.
pub proof fn lemma_namespace_view(symbol: TypeScriptSymbol)
    requires
        symbol is Namespace,
    ensures
        symbol@ == (SymbolView::Namespace {
            name: symbol->Namespace_name@,
            jsdoc: text_option(symbol->Namespace_jsdoc),
            content: symbol_views(symbol->Namespace_content@),
            is_exported: symbol->Namespace_is_exported,
        }),
{
    let content = symbol->Namespace_content;
    lemma_symbol_views_before(content, content@.len() as int);
    assert(content@.subrange(0, content@.len() as int) =~= content@);
}

impl View for Module {
    type V = ModuleView;

    open spec fn view(&self) -> ModuleView {
        ModuleView {
            path: self.path@,
            jsdoc: text_option(self.jsdoc),
            symbols: symbol_views(self.symbols@),
            default_export_name: text_option(self.default_export_name),
        }
    }
}

/// A copy of an optional text.
pub fn clone_text_option(text: &Option<String>) -> (copy: Option<String>)
    ensures
        text_option(copy) == text_option(*text),
{
    match text {
        Some(t) => Some(t.clone()),
        None => None,
    }
}

/// A copy of a list of texts.
pub fn clone_texts(texts: &Vec<String>) -> (copy: Vec<String>)
    ensures
        text_views(copy@) == text_views(texts@),
{
    let mut copy: Vec<String> = Vec::new();
    let mut i: usize = 0;
    while i < texts.len()
        invariant
            i <= texts.len(),
            copy@.len() == i,
            forall|k: int| 0 <= k < i ==> copy@[k]@ == texts@[k]@,
        decreases texts.len() - i,
    {
        copy.push(texts[i].clone());
        i += 1;
    }
    assert(text_views(copy@) =~= text_views(texts@));
    copy
}

/// A copy of a list of pairs of texts.
pub fn clone_pairs(pairs: &Vec<(String, String)>) -> (copy: Vec<(String, String)>)
    ensures
        pair_views(copy@) == pair_views(pairs@),
{
    let mut copy: Vec<(String, String)> = Vec::new();
    let mut i: usize = 0;
    while i < pairs.len()
        invariant
            i <= pairs.len(),
            copy@.len() == i,
            forall|k: int|
                0 <= k < i ==> copy@[k].0@ == pairs@[k].0@ && copy@[k].1@ == pairs@[k].1@,
        decreases pairs.len() - i,
    {
        copy.push((pairs[i].0.clone(), pairs[i].1.clone()));
        i += 1;
    }
    assert(pair_views(copy@) =~= pair_views(pairs@));
    copy
}

impl Clone for Symbol {
    fn clone(&self) -> (copy: Symbol)
        ensures
            copy.name@ == self.name@,
            copy.source_code@ == self.source_code@,
    {
        Symbol { name: self.name.clone(), source_code: self.source_code.clone() }
    }
}

impl Clone for ImportTarget {
    fn clone(&self) -> (copy: ImportTarget)
        ensures
            copy@ == self@,
    {
        match self {
            ImportTarget::Default { name } => ImportTarget::Default { name: name.clone() },
            ImportTarget::Namespace { name } => ImportTarget::Namespace { name: name.clone() },
            ImportTarget::Named { names, aliases } => ImportTarget::Named {
                names: clone_texts(names),
                aliases: clone_pairs(aliases),
            },
        }
    }
}

impl Clone for ExportTarget {
    fn clone(&self) -> (copy: ExportTarget)
        ensures
            copy@ == self@,
    {
        match self {
            ExportTarget::Namespace { name } => ExportTarget::Namespace { name: name.clone() },
            ExportTarget::Named { names, aliases } => ExportTarget::Named {
                names: clone_texts(names),
                aliases: clone_pairs(aliases),
            },
            ExportTarget::Barrel => ExportTarget::Barrel,
        }
    }
}

/// A copy of a symbol, with everything that it holds.
#[verifier::loop_isolation(false)]
pub fn clone_symbol(symbol: &TypeScriptSymbol) -> (copy: TypeScriptSymbol)
    ensures
        copy@ == symbol@,
    decreases symbol,
{
    match symbol {
        TypeScriptSymbol::Symbol { symbol, is_exported } => TypeScriptSymbol::Symbol {
            symbol: symbol.clone(),
            is_exported: *is_exported,
        },
        TypeScriptSymbol::Namespace { name, jsdoc, content, is_exported } => {
            let mut copy: Vec<TypeScriptSymbol> = Vec::new();
            let mut i: usize = 0;
            while i < content.len()
                invariant
                    i <= content.len(),
                    copy@.len() == i,
                    forall|k: int| 0 <= k < i ==> copy@[k]@ == content@[k]@,
                decreases content.len() - i,
            {
                copy.push(clone_symbol(&content[i]));
                i += 1;
            }
            let result = TypeScriptSymbol::Namespace {
                name: name.clone(),
                jsdoc: clone_text_option(jsdoc),
                content: copy,
                is_exported: *is_exported,
            };
            proof {
                lemma_namespace_view(result);
                lemma_namespace_view(*symbol);
                assert(symbol_views(copy@) =~= symbol_views(content@));
            }
            result
        },
        TypeScriptSymbol::ModuleImport { source_module, target } => TypeScriptSymbol::ModuleImport {
            source_module: source_module.clone(),
            target: target.clone(),
        },
        TypeScriptSymbol::ModuleExport { source_module, target } => TypeScriptSymbol::ModuleExport {
            source_module: clone_text_option(source_module),
            target: target.clone(),
        },
    }
}

/// A copy of a list of symbols.
pub fn clone_symbols(symbols: &Vec<TypeScriptSymbol>) -> (copy: Vec<TypeScriptSymbol>)
    ensures
        symbol_views(copy@) == symbol_views(symbols@),
{
    let mut copy: Vec<TypeScriptSymbol> = Vec::new();
    let mut i: usize = 0;
    while i < symbols.len()
        invariant
            i <= symbols.len(),
            copy@.len() == i,
            forall|k: int| 0 <= k < i ==> copy@[k]@ == symbols@[k]@,
        decreases symbols.len() - i,
    {
        copy.push(clone_symbol(&symbols[i]));
        i += 1;
    }
    assert(symbol_views(copy@) =~= symbol_views(symbols@));
    copy
}

impl Clone for TypeScriptSymbol {
    fn clone(&self) -> (copy: TypeScriptSymbol)
        ensures
            copy@ == self@,
    {
        clone_symbol(self)
    }
}

impl Clone for Module {
    fn clone(&self) -> (copy: Module)
        ensures
            copy@ == self@,
    {
        Module {
            path: self.path.clone(),
            jsdoc: clone_text_option(&self.jsdoc),
            symbols: clone_symbols(&self.symbols),
            default_export_name: clone_text_option(&self.default_export_name),
        }
    }
}

} // verus!
