use daipendency_extractor_typescript::error::ExtractionError;
use daipendency_extractor_typescript::extractor::TypeScriptExtractor;
use daipendency_extractor_typescript::module::{
    ExportTarget, ImportTarget, Module, Symbol, TypeScriptSymbol,
};
use daipendency_extractor_typescript::parsing::parse_typescript_file;
use tree_sitter::Parser;

fn make_parser() -> Parser {
    let mut parser = Parser::new();
    let language = TypeScriptExtractor.get_parser_language();
    parser.set_language(&language).unwrap();
    parser
}

fn parse(content: &str) -> Module {
    let mut parser = make_parser();
    parse_typescript_file(content, &mut parser, String::new()).unwrap()
}

fn deconstruct_module_import(symbol: &TypeScriptSymbol) -> (String, ImportTarget) {
    match symbol {
        TypeScriptSymbol::ModuleImport { source_module, target } => {
            (source_module.clone(), target.clone())
        }
        _ => panic!("Expected module import"),
    }
}

fn deconstruct_namespace(
    symbol: &TypeScriptSymbol,
) -> (String, Vec<TypeScriptSymbol>, bool, Option<String>) {
    match symbol {
        TypeScriptSymbol::Namespace { name, content, is_exported, jsdoc } => {
            (name.clone(), content.clone(), *is_exported, jsdoc.clone())
        }
        _ => panic!("Expected namespace"),
    }
}

fn deconstruct_module_export(symbol: &TypeScriptSymbol) -> (Option<String>, ExportTarget) {
    match symbol {
        TypeScriptSymbol::ModuleExport { source_module, target } => {
            (source_module.clone(), target.clone())
        }
        _ => panic!("Expected module export"),
    }
}

fn pairs(entries: &[(&str, &str)]) -> Vec<(String, String)> {
    entries.iter().map(|(a, b)| (a.to_string(), b.to_string())).collect()
}

fn assert_single_symbol(content: &str, name: &str, source_code: &str, exported: bool) {
    let module = parse(content);
    assert_eq!(module.symbols.len(), 1);
    let symbol = &module.symbols[0];
    assert!(matches!(
        symbol,
        TypeScriptSymbol::Symbol { symbol, is_exported }
            if symbol.name == name && symbol.source_code == source_code && *is_exported == exported
    ));
}

#[test]
fn empty_file() {
    let mut parser = make_parser();
    let path = "/test/empty.ts".to_string();

    let result = parse_typescript_file("", &mut parser, path.clone());

    assert!(matches!(
        result,
        Ok(Module { path: p, jsdoc: None, symbols: s, default_export_name: None })
            if p == path && s.is_empty()
    ));
}

#[test]
fn malformed_file() {
    let mut parser = make_parser();

    let result = parse_typescript_file("class {", &mut parser, String::new());

    assert!(matches!(
        result,
        Err(ExtractionError::Malformed(msg)) if msg == "Failed to parse source file"
    ));
}

#[test]
fn file_path_is_preserved() {
    let mut parser = make_parser();
    let test_path = "/test/file/path.ts".to_string();

    let result = parse_typescript_file("const foo = 42;", &mut parser, test_path.clone());

    assert!(matches!(result, Ok(Module { path, .. }) if path == test_path));
}

const FILE_DESCRIPTION: &str = "Description of the file";

#[test]
fn file_tag() {
    let content = format!("/** @file {FILE_DESCRIPTION} */\ndeclare const foo = 42;");

    let module = parse(&content);

    assert_eq!(module.jsdoc, Some(format!("/** @file {FILE_DESCRIPTION} */")));
}

#[test]
fn fileoverview_tag() {
    let content = format!("/** @fileoverview {FILE_DESCRIPTION} */\ndeclare const foo = 42;");

    let module = parse(&content);

    assert_eq!(module.jsdoc, Some(format!("/** @fileoverview {FILE_DESCRIPTION} */")));
}

#[test]
fn module_tag() {
    let content = format!("/** @module {FILE_DESCRIPTION} */\ndeclare const foo = 42;");

    let module = parse(&content);

    assert_eq!(module.jsdoc, Some(format!("/** @module {FILE_DESCRIPTION} */")));
}

#[test]
fn no_tag() {
    let module = parse("/** Just a comment */\ndeclare const foo = 42;");

    assert_eq!(module.jsdoc, None);
}

#[test]
fn non_jsdoc_block_comment() {
    let module = parse("/* @module Just a comment */\ndeclare const foo = 42;");

    assert_eq!(module.jsdoc, None);
}

#[test]
fn line_comment() {
    let module = parse("// @module Just a comment\ndeclare const foo = 42;");

    assert_eq!(module.jsdoc, None);
}

#[test]
fn class_declaration() {
    let content = "declare class Foo { bar(): void; }";
    assert_single_symbol(content, "Foo", content, false);
}

#[test]
fn abstract_class_declaration() {
    let content = "declare abstract class Foo { bar(): void; }";
    assert_single_symbol(content, "Foo", content, false);
}

#[test]
fn type_alias_declaration() {
    let content = "type Bar = string;";
    assert_single_symbol(content, "Bar", content, false);
}

#[test]
fn interface_declaration() {
    let content = "interface Baz { qux: number; }";
    assert_single_symbol(content, "Baz", content, false);
}

#[test]
fn enum_declaration() {
    let content = "enum Status { Active, Inactive }";
    assert_single_symbol(content, "Status", content, false);
}

#[test]
fn function_declaration() {
    let content = "declare function greet(name: string): void;";
    assert_single_symbol(content, "greet", content, false);
}

#[test]
fn const_declaration() {
    let content = "declare const VERSION: string;";
    assert_single_symbol(content, "VERSION", content, false);
}

#[test]
fn let_declaration() {
    let content = "declare let counter: number;";
    assert_single_symbol(content, "counter", content, false);
}

#[test]
fn symbol_with_jsdoc() {
    let content = "/** The version number */\ndeclare const VERSION: string;";
    assert_single_symbol(content, "VERSION", content, false);
}

#[test]
fn symbol_without_jsdoc() {
    let content = "declare const VERSION: string;";
    assert_single_symbol(content, "VERSION", content, false);
}

#[test]
fn symbol_with_preceding_module_jsdoc_comment() {
    let content = "/** @module The module description */\ndeclare const VERSION: string;";

    let module = parse(content);

    assert_eq!(module.symbols.len(), 1);
    let symbol = &module.symbols[0];
    assert!(matches!(
        symbol,
        TypeScriptSymbol::Symbol { symbol, is_exported: false }
            if symbol.source_code == "declare const VERSION: string;".to_string()
    ));
}

#[test]
fn symbol_with_preceding_non_jsdoc_comment() {
    let content = "// The comment\ndeclare const VERSION: string;";

    let module = parse(content);

    assert_eq!(module.symbols.len(), 1);
    let symbol = &module.symbols[0];
    assert!(matches!(
        symbol,
        TypeScriptSymbol::Symbol { symbol, is_exported: false }
            if symbol.source_code == "declare const VERSION: string;".to_string()
    ));
}

#[test]
fn export_and_declaration() {
    let content = "export declare function greet(name: string): void;";
    assert_single_symbol(content, "greet", content, true);
}

#[test]
fn default_export_and_declaration() {
    let content = "export default declare function greet(name: string): void;";

    let module = parse(content);

    assert_eq!(module.symbols.len(), 1);
    assert_eq!(module.default_export_name, Some("greet".to_string()));
    let symbol = &module.symbols[0];
    assert!(matches!(
        symbol,
        TypeScriptSymbol::Symbol { symbol, is_exported: true }
            if symbol.name == "greet" && symbol.source_code == content
    ));
}

#[test]
fn empty_namespace() {
    let module = parse("namespace Foo {}");

    assert_eq!(module.symbols.len(), 1);
    let namespace = &module.symbols[0];
    assert!(matches!(namespace, TypeScriptSymbol::Namespace { name, .. } if name == "Foo"));
    assert!(matches!(namespace, TypeScriptSymbol::Namespace { content, .. } if content.is_empty()));
}

#[test]
fn namespace_with_symbol() {
    let module = parse("namespace Foo { declare const VERSION: string; }");

    assert_eq!(module.symbols.len(), 1);
    let namespace = &module.symbols[0];
    assert!(matches!(namespace, TypeScriptSymbol::Namespace { name, .. } if name == "Foo"));
    assert!(matches!(namespace, TypeScriptSymbol::Namespace { content, .. } if content.len() == 1));
}

#[test]
fn parsing_exported_namespace() {
    let module = parse("export namespace Foo { declare const VERSION: string; }");

    assert_eq!(module.symbols.len(), 1);
    let namespace = &module.symbols[0];
    assert!(matches!(namespace, TypeScriptSymbol::Namespace { name, .. } if name == "Foo"));
    assert!(matches!(namespace, TypeScriptSymbol::Namespace { is_exported: true, .. }));
}

#[test]
fn namespace_with_multiple_symbols() {
    let module =
        parse("namespace Foo { declare const VERSION: string; declare function greet(): void; }");

    assert_eq!(module.symbols.len(), 1);
    let namespace = &module.symbols[0];
    assert!(matches!(namespace, TypeScriptSymbol::Namespace { name, .. } if name == "Foo"));
    assert!(matches!(namespace, TypeScriptSymbol::Namespace { content, .. } if content.len() == 2));
}

#[test]
fn namespace_with_inner_namespace() {
    let module = parse("namespace Foo { namespace Bar { export declare const VERSION: string; } }");

    assert_eq!(module.symbols.len(), 1);
    let (outer_name, outer_content, outer_exported, outer_jsdoc) =
        deconstruct_namespace(&module.symbols[0]);
    assert_eq!(outer_name, "Foo");
    assert_eq!(outer_content.len(), 1);
    assert!(!outer_exported);
    assert_eq!(outer_jsdoc, None);
    let (inner_name, inner_content, inner_exported, inner_jsdoc) =
        deconstruct_namespace(&outer_content[0]);
    assert_eq!(inner_name, "Bar");
    assert_eq!(inner_content.len(), 1);
    assert!(!inner_exported);
    assert_eq!(inner_jsdoc, None);
    let symbol = &inner_content[0];
    assert!(matches!(
        symbol,
        TypeScriptSymbol::Symbol { symbol, is_exported: true } if symbol.name == "VERSION"
    ));
}

#[test]
fn namespace_with_jsdoc() {
    let module = parse("/** Utility functions */\nnamespace Foo { declare const VERSION: string; }");

    assert_eq!(module.symbols.len(), 1);
    let namespace = &module.symbols[0];
    assert!(matches!(namespace, TypeScriptSymbol::Namespace { name, .. } if name == "Foo"));
    assert!(matches!(
        namespace,
        TypeScriptSymbol::Namespace { jsdoc: Some(j), .. } if j == "/** Utility functions */"
    ));
}

#[test]
fn namespace_without_jsdoc() {
    let module = parse("namespace Foo { declare const VERSION: string; }");

    assert_eq!(module.symbols.len(), 1);
    let namespace = &module.symbols[0];
    assert!(matches!(namespace, TypeScriptSymbol::Namespace { jsdoc: None, .. }));
}

#[test]
fn default_import() {
    let module = parse("import foo from './foo.js';");

    assert_eq!(module.symbols.len(), 1);
    let (source_module, target) = deconstruct_module_import(&module.symbols[0]);
    assert_eq!(source_module, "./foo.js");
    assert!(matches!(target, ImportTarget::Default { name } if name == "foo"));
}

#[test]
fn namespace_import() {
    let module = parse("import * as foo from './foo.js';");

    assert_eq!(module.symbols.len(), 1);
    let (source_module, target) = deconstruct_module_import(&module.symbols[0]);
    assert_eq!(source_module, "./foo.js");
    assert!(matches!(target, ImportTarget::Namespace { name } if name == "foo"));
}

#[test]
fn named_import() {
    let module = parse("import { foo } from './foo.js';");

    assert_eq!(module.symbols.len(), 1);
    let (source_module, target) = deconstruct_module_import(&module.symbols[0]);
    assert_eq!(source_module, "./foo.js");
    assert!(matches!(
        target,
        ImportTarget::Named { names, aliases }
            if names == vec!["foo".to_string()] && aliases.is_empty()
    ));
}

#[test]
fn named_import_with_alias() {
    let module = parse("import { foo as bar } from './foo.js';");

    assert_eq!(module.symbols.len(), 1);
    let (source_module, target) = deconstruct_module_import(&module.symbols[0]);
    assert_eq!(source_module, "./foo.js");
    assert!(matches!(
        target,
        ImportTarget::Named { names, aliases }
            if names == vec!["foo".to_string()] && aliases == pairs(&[("foo", "bar")])
    ));
}

#[test]
fn mixed_import() {
    let module = parse("import foo, { bar } from './foo.js';");

    assert_eq!(module.symbols.len(), 2);
    let (source_module, target) = deconstruct_module_import(&module.symbols[0]);
    assert_eq!(source_module, "./foo.js");
    assert!(matches!(target, ImportTarget::Default { name } if name == "foo"));
    let (source_module, target) = deconstruct_module_import(&module.symbols[1]);
    assert_eq!(source_module, "./foo.js");
    assert!(matches!(
        target,
        ImportTarget::Named { names, aliases }
            if names == vec!["bar".to_string()] && aliases.is_empty()
    ));
}

#[test]
fn multiple_named_imports() {
    let module = parse("import { foo, bar as baz } from './foo.js';");

    assert_eq!(module.symbols.len(), 1);
    let (source_module, target) = deconstruct_module_import(&module.symbols[0]);
    assert_eq!(source_module, "./foo.js");
    assert!(matches!(
        target,
        ImportTarget::Named { names, aliases }
            if names == vec!["foo".to_string(), "bar".to_string()]
                && aliases == pairs(&[("bar", "baz")])
    ));
}

#[test]
fn namespace_export_from_another_module() {
    let module = parse("export * as foo from './foo.js';");

    assert_eq!(module.symbols.len(), 1);
    let (source_module, target) = deconstruct_module_export(&module.symbols[0]);
    assert_eq!(source_module, Some("./foo.js".to_string()));
    assert!(matches!(target, ExportTarget::Namespace { name } if name == "foo"));
}

#[test]
fn named_export_from_another_module() {
    let module = parse("export { foo, bar } from './foo.js';");

    assert_eq!(module.symbols.len(), 1);
    let (source_module, target) = deconstruct_module_export(&module.symbols[0]);
    assert_eq!(source_module, Some("./foo.js".to_string()));
    assert!(matches!(
        target,
        ExportTarget::Named { names, aliases }
            if names == vec!["foo".to_string(), "bar".to_string()] && aliases.is_empty()
    ));
}

#[test]
fn aliased_export_from_another_module() {
    let module = parse("export { foo as bar } from './foo.js';");

    assert_eq!(module.symbols.len(), 1);
    let (source_module, target) = deconstruct_module_export(&module.symbols[0]);
    assert_eq!(source_module, Some("./foo.js".to_string()));
    assert!(matches!(
        target,
        ExportTarget::Named { names, aliases }
            if names == vec!["foo".to_string()] && aliases == pairs(&[("foo", "bar")])
    ));
}

#[test]
fn barrel_export_from_another_module() {
    let module = parse("export * from './foo.js';");

    assert_eq!(module.symbols.len(), 1);
    let (source_module, target) = deconstruct_module_export(&module.symbols[0]);
    assert_eq!(source_module, Some("./foo.js".to_string()));
    assert!(matches!(target, ExportTarget::Barrel));
}

#[test]
fn symbol_export() {
    let module = parse("\nexport { VERSION };");

    assert_eq!(module.symbols.len(), 1);
    let (source_module, target) = deconstruct_module_export(&module.symbols[0]);
    assert_eq!(source_module, None);
    assert!(matches!(
        target,
        ExportTarget::Named { names, aliases }
            if names == vec!["VERSION".to_string()] && aliases.is_empty()
    ));
}

#[test]
fn commonjs_export() {
    let module = parse("export = myFunction;");

    assert_eq!(module.symbols.len(), 1);
    let (source_module, target) = deconstruct_module_export(&module.symbols[0]);
    assert_eq!(source_module, None);
    assert!(matches!(
        target,
        ExportTarget::Named { names, aliases }
            if names == vec!["myFunction".to_string()] && aliases.is_empty()
    ));
}

#[test]
fn default_export() {
    let module = parse("export default VERSION;");

    assert_eq!(module.default_export_name, Some("VERSION".to_string()));
}

#[test]
fn mixed_export_from_another_module() {
    let module = parse("export { foo, bar as baz } from './module.js';");

    assert_eq!(module.symbols.len(), 1);
    let (source_module, target) = deconstruct_module_export(&module.symbols[0]);
    assert_eq!(source_module, Some("./module.js".to_string()));
    assert!(matches!(
        target,
        ExportTarget::Named { names, aliases }
            if names == vec!["foo".to_string(), "bar".to_string()]
                && aliases == pairs(&[("bar", "baz")])
    ));
}

#[test]
fn exports_from_multiple_modules() {
    let module = parse("export { foo } from './foo.js';\nexport { bar } from './bar.js';");

    assert_eq!(module.symbols.len(), 2);
    let (source_module, target) = deconstruct_module_export(&module.symbols[0]);
    assert_eq!(source_module, Some("./foo.js".to_string()));
    assert!(matches!(
        target,
        ExportTarget::Named { names, aliases }
            if names == vec!["foo".to_string()] && aliases.is_empty()
    ));
    let (source_module, target) = deconstruct_module_export(&module.symbols[1]);
    assert_eq!(source_module, Some("./bar.js".to_string()));
    assert!(matches!(
        target,
        ExportTarget::Named { names, aliases }
            if names == vec!["bar".to_string()] && aliases.is_empty()
    ));
}

#[test]
fn import() {
    let symbol = TypeScriptSymbol::ModuleImport {
        source_module: "lodash".to_string(),
        target: ImportTarget::Default { name: "lodash".to_string() },
    };

    let (module, target) = deconstruct_module_import(&symbol);

    assert_eq!(module, "lodash");
    assert_eq!(target, ImportTarget::Default { name: "lodash".to_string() });
}

#[test]
#[should_panic(expected = "Expected module import")]
fn non_import() {
    let symbol = TypeScriptSymbol::Symbol {
        symbol: Symbol { name: "foo".to_string(), source_code: "foo".to_string() },
        is_exported: false,
    };

    deconstruct_module_import(&symbol);
}

#[test]
fn namespace() {
    let symbol = TypeScriptSymbol::Namespace {
        name: "Foo".to_string(),
        content: vec![TypeScriptSymbol::Symbol {
            symbol: Symbol { name: "bar".to_string(), source_code: "const bar = 42;".to_string() },
            is_exported: false,
        }],
        is_exported: true,
        jsdoc: Some("/** Utility functions */".to_string()),
    };

    let (name, content, is_exported, jsdoc) = deconstruct_namespace(&symbol);

    assert_eq!(name, "Foo");
    assert_eq!(content.len(), 1);
    assert!(is_exported);
    assert_eq!(jsdoc, Some("/** Utility functions */".to_string()));
    assert_eq!(symbol.clone(), symbol);
}

#[test]
#[should_panic(expected = "Expected namespace")]
fn non_namespace() {
    let symbol = TypeScriptSymbol::Symbol {
        symbol: Symbol { name: "foo".to_string(), source_code: "foo".to_string() },
        is_exported: false,
    };

    deconstruct_namespace(&symbol);
}

#[test]
fn export_with_source() {
    let symbol = TypeScriptSymbol::ModuleExport {
        source_module: Some("lodash".to_string()),
        target: ExportTarget::Named { names: vec!["map".to_string()], aliases: Vec::new() },
    };

    let (source_module, target) = deconstruct_module_export(&symbol);

    assert_eq!(source_module, Some("lodash".to_string()));
    assert!(matches!(
        target,
        ExportTarget::Named { names, aliases }
            if names == vec!["map".to_string()] && aliases.is_empty()
    ));
}

#[test]
fn export_without_source() {
    let symbol = TypeScriptSymbol::ModuleExport {
        source_module: None,
        target: ExportTarget::Namespace { name: "utils".to_string() },
    };

    let (source_module, target) = deconstruct_module_export(&symbol);

    assert_eq!(source_module, None);
    assert!(matches!(target, ExportTarget::Namespace { name } if name == "utils"));
}

#[test]
#[should_panic(expected = "Expected module export")]
fn non_export() {
    let symbol = TypeScriptSymbol::Symbol {
        symbol: Symbol { name: "foo".to_string(), source_code: "foo".to_string() },
        is_exported: false,
    };

    deconstruct_module_export(&symbol);
}

#[test]
fn exported_interface_keeps_its_line() {
    let content = "export interface Person { name: string; }";
    assert_single_symbol(content, "Person", content, true);
}

#[test]
fn import_stands_before_declaration() {
    let module = parse("import { Bar } from './bar';\nexport const foo: string;");

    assert_eq!(
        module.symbols,
        vec![
            TypeScriptSymbol::ModuleImport {
                source_module: "./bar".to_string(),
                target: ImportTarget::Named { names: vec!["Bar".to_string()], aliases: vec![] },
            },
            TypeScriptSymbol::Symbol {
                symbol: Symbol {
                    name: "foo".to_string(),
                    source_code: "export const foo: string;".to_string(),
                },
                is_exported: true,
            },
        ]
    );
}

#[test]
fn symbols_are_grouped_whatever_the_order_of_the_source() {
    let module = parse(
        "export { late } from './late';\n\
         namespace N { declare const inner: string; }\n\
         declare const first: string;\n\
         import early from './early';\n\
         declare const second: number;\n\
         namespace M {}\n\
         import * as other from 'other';\n\
         export * from './barrel';",
    );

    let kinds: Vec<String> = module
        .symbols
        .iter()
        .map(|symbol| match symbol {
            TypeScriptSymbol::ModuleImport { source_module, .. } => format!("import {source_module}"),
            TypeScriptSymbol::Symbol { symbol, .. } => format!("symbol {}", symbol.name),
            TypeScriptSymbol::Namespace { name, .. } => format!("namespace {name}"),
            TypeScriptSymbol::ModuleExport { source_module, .. } => {
                format!("export {}", source_module.clone().unwrap_or_default())
            }
        })
        .collect();
    assert_eq!(
        kinds,
        vec![
            "import ./early",
            "import other",
            "symbol first",
            "symbol second",
            "namespace N",
            "namespace M",
            "export ./late",
            "export ./barrel",
        ]
    );
}

#[test]
fn what_stands_in_a_namespace_stays_in_it() {
    let module = parse(
        "namespace Outer {\n\
           declare const hidden: string;\n\
           namespace Inner { declare function deep(): void; }\n\
           export { a, b as c };\n\
           export * from './barrel';\n\
         }\n\
         declare const shown: string;",
    );

    assert_eq!(module.symbols.len(), 2);
    assert!(matches!(
        &module.symbols[0],
        TypeScriptSymbol::Symbol { symbol, is_exported: false } if symbol.name == "shown"
    ));
    let (name, content, _, _) = deconstruct_namespace(&module.symbols[1]);
    assert_eq!(name, "Outer");
    assert_eq!(content.len(), 4);
    assert!(matches!(
        &content[0],
        TypeScriptSymbol::Symbol { symbol, .. }
            if symbol.name == "hidden" && symbol.source_code == "declare const hidden: string;"
    ));
    let (inner_name, inner_content, _, _) = deconstruct_namespace(&content[1]);
    assert_eq!(inner_name, "Inner");
    assert_eq!(inner_content.len(), 1);
    assert_eq!(
        content[2],
        TypeScriptSymbol::ModuleExport {
            source_module: None,
            target: ExportTarget::Named {
                names: vec!["a".to_string(), "b".to_string()],
                aliases: pairs(&[("b", "c")]),
            },
        }
    );
    assert_eq!(
        content[3],
        TypeScriptSymbol::ModuleExport {
            source_module: Some("./barrel".to_string()),
            target: ExportTarget::Barrel,
        }
    );
}

#[test]
fn extraction_is_repeatable() {
    let content = "/** @module m */\nimport a, { b as c } from './a';\n/** doc */\nexport declare class K {}\nnamespace N { export declare const V: string; }\nexport { x, y as z } from './x';\nexport default K;";
    let mut parser = make_parser();

    let first = parse_typescript_file(content, &mut parser, "/m.ts".to_string()).unwrap();
    let second = parse_typescript_file(content, &mut parser, "/m.ts".to_string()).unwrap();

    assert_eq!(first, second);
    assert_eq!(first.clone(), first);
    assert_eq!(first.jsdoc, Some("/** @module m */".to_string()));
    assert_eq!(first.default_export_name, Some("K".to_string()));
    assert_eq!(first.symbols.len(), 5);
}

fn assert_sources_are_parts(content: &str, symbols: &[TypeScriptSymbol]) {
    for symbol in symbols {
        match symbol {
            TypeScriptSymbol::Symbol { symbol, .. } => {
                assert!(content.contains(&symbol.source_code), "{}", symbol.source_code)
            }
            TypeScriptSymbol::Namespace { content: inner, .. } => {
                assert_sources_are_parts(content, inner)
            }
            _ => {}
        }
    }
}

#[test]
fn source_code_is_a_part_of_the_text() {
    let content = "/** Ünïcödé doc — ✓ */\nexport declare const greeting: 'héllo';\n\n/** second */\ntype  Spaced   =   string ;\nnamespace N {\n  /** inner */\n  declare function f(): void;\n}";

    let module = parse(content);

    assert_sources_are_parts(content, &module.symbols);
    assert!(matches!(
        &module.symbols[0],
        TypeScriptSymbol::Symbol { symbol, is_exported: true }
            if symbol.name == "greeting"
                && symbol.source_code == "/** Ünïcödé doc — ✓ */\nexport declare const greeting: 'héllo';"
    ));
    assert!(matches!(
        &module.symbols[1],
        TypeScriptSymbol::Symbol { symbol, is_exported: false }
            if symbol.name == "Spaced" && symbol.source_code == "/** second */\ntype  Spaced   =   string ;"
    ));
    let (_, inner, _, _) = deconstruct_namespace(&module.symbols[2]);
    assert!(matches!(
        &inner[0],
        TypeScriptSymbol::Symbol { symbol, .. }
            if symbol.source_code == "/** inner */\n  declare function f(): void;"
    ));
}

#[test]
fn variables_of_one_statement_share_its_source() {
    let module = parse("declare const a: string, b: number;");

    assert_eq!(module.symbols.len(), 2);
    assert!(matches!(
        &module.symbols[0],
        TypeScriptSymbol::Symbol { symbol, .. }
            if symbol.name == "a" && symbol.source_code == "declare const a: string, b: number;"
    ));
    assert!(matches!(
        &module.symbols[1],
        TypeScriptSymbol::Symbol { symbol, .. }
            if symbol.name == "b" && symbol.source_code == "declare const a: string, b: number;"
    ));
}

#[test]
fn default_export_does_not_hide_the_export() {
    let module = parse("declare const VERSION: string;\nexport default VERSION;\nexport { VERSION };");

    assert_eq!(module.default_export_name, Some("VERSION".to_string()));
    assert_eq!(module.symbols.len(), 2);
}

#[test]
fn specifier_before_a_comment_waits_for_the_next_statement() {
    let module = parse("export { a /* note */ };\nexport { b };");

    assert_eq!(
        module.symbols,
        vec![TypeScriptSymbol::ModuleExport {
            source_module: None,
            target: ExportTarget::Named {
                names: vec!["a".to_string(), "b".to_string()],
                aliases: vec![],
            },
        }]
    );
}

#[test]
fn exported_namespace_has_no_doc_comment() {
    let module = parse("/** Utility functions */\nexport namespace Foo {}");

    assert_eq!(
        module.symbols,
        vec![TypeScriptSymbol::Namespace {
            name: "Foo".to_string(),
            jsdoc: None,
            content: vec![],
            is_exported: true,
        }]
    );
}

#[test]
fn import_without_bindings_is_left_out() {
    let module = parse("import './side-effect';\nimport type { T } from './t';");

    assert_eq!(
        module.symbols,
        vec![TypeScriptSymbol::ModuleImport {
            source_module: "./t".to_string(),
            target: ImportTarget::Named { names: vec!["T".to_string()], aliases: vec![] },
        }]
    );
}

#[test]
fn large_file_is_extracted() {
    let mut content = String::new();
    for i in 0..1500 {
        content.push_str(&format!("import {{ a{i} as b{i} }} from './m{i}';\n"));
        content.push_str(&format!("/** doc {i} */\nexport declare function f{i}(x: number): string;\n"));
        content.push_str(&format!(
            "declare namespace N{i} {{ export declare const v{i}: string; namespace Inner{i} {{ declare const w: number; }} }}\n"
        ));
        content.push_str(&format!("export {{ x{i}, y{i} as z{i} }} from './e{i}';\n"));
    }

    let module = parse(&content);

    assert_eq!(module.symbols.len(), 6000);
    assert!(matches!(&module.symbols[0], TypeScriptSymbol::ModuleImport { source_module, .. } if source_module == "./m0"));
    assert!(matches!(&module.symbols[1499], TypeScriptSymbol::ModuleImport { source_module, .. } if source_module == "./m1499"));
    assert!(matches!(
        &module.symbols[1500],
        TypeScriptSymbol::Symbol { symbol, is_exported: true }
            if symbol.name == "f0"
                && symbol.source_code == "/** doc 0 */\nexport declare function f0(x: number): string;"
    ));
    let (name, inner, _, _) = deconstruct_namespace(&module.symbols[3000 + 1499]);
    assert_eq!(name, "N1499");
    assert_eq!(inner.len(), 2);
    assert_eq!(
        module.symbols[5999],
        TypeScriptSymbol::ModuleExport {
            source_module: Some("./e1499".to_string()),
            target: ExportTarget::Named {
                names: vec!["x1499".to_string(), "y1499".to_string()],
                aliases: pairs(&[("y1499", "z1499")]),
            },
        }
    );
}

#[test]
fn varied_syntax_is_read() {
    let content = "\u{feff}// header\r\n/* block */\r\nimport type { A, B as C } from \"./types\";\r\nimport D, * as E from '../e';\r\n\r\n/**\r\n * Doc — with ünïcode ✓\r\n */\r\nexport declare abstract class K<T extends object = {}> implements I<T> {\r\n  private readonly x: Map<string, Array<T>>;\r\n  constructor(a: string, /* inline */ b?: number);\r\n  static of<U>(this: void, ...rest: U[]): K<U>;\r\n  get value(): T;\r\n  [key: string]: unknown;\r\n}\r\nexport declare function overload(a: string): string;\r\nexport declare function overload(a: number): number;\r\nexport type Fn = <T>(x: T) => asserts x is NonNullable<T>;\r\nexport type Tpl = `prefix-${string}`;\r\nexport declare const enum E2 { A = 1 << 0, B = A | 2 }\r\ndeclare global { interface Window { k: K<any>; } }\r\ndeclare module 'ambient' { export const inner: unique symbol; }\r\nexport declare namespace Outer.Inner { const deep: string; }\r\nexport as namespace Lib;\r\nexport import Alias = Outer.Inner;\r\nexport { K as default, type Fn as F };\r\nexport * from './all';\r\nexport * as ns from './ns';\r\nexport default K;\r\n";

    let module = parse(content);

    assert_sources_are_parts(content, &module.symbols);
    let names: Vec<&str> = module
        .symbols
        .iter()
        .filter_map(|symbol| match symbol {
            TypeScriptSymbol::Symbol { symbol, .. } => Some(symbol.name.as_str()),
            _ => None,
        })
        .collect();
    assert_eq!(names, vec!["K", "overload", "overload", "Fn", "Tpl", "E2", "Window", "inner"]);
    assert_eq!(module.default_export_name, Some("K".to_string()));
    assert_eq!(module.jsdoc, None);
    let imports: Vec<&TypeScriptSymbol> = module
        .symbols
        .iter()
        .filter(|symbol| matches!(symbol, TypeScriptSymbol::ModuleImport { .. }))
        .collect();
    assert_eq!(imports.len(), 3);
    let exports: Vec<&TypeScriptSymbol> = module
        .symbols
        .iter()
        .filter(|symbol| matches!(symbol, TypeScriptSymbol::ModuleExport { .. }))
        .collect();
    assert_eq!(exports.len(), 3);
    assert_eq!(
        *exports[0],
        TypeScriptSymbol::ModuleExport {
            source_module: None,
            target: ExportTarget::Named {
                names: vec!["K".to_string(), "Fn".to_string()],
                aliases: pairs(&[("K", "default"), ("Fn", "F")]),
            },
        }
    );
}

#[test]
fn specifier_that_begins_with_a_keyword_gives_no_name() {
    let module = parse("import { type T, U as V } from './t';");

    assert_eq!(
        module.symbols,
        vec![TypeScriptSymbol::ModuleImport {
            source_module: "./t".to_string(),
            target: ImportTarget::Named {
                names: vec!["U".to_string()],
                aliases: pairs(&[("U", "V")]),
            },
        }]
    );
}

#[test]
fn import_from_an_empty_specifier_is_left_out() {
    let module = parse("import a from '';\nexport * from '';\nexport { b } from '';");

    assert_eq!(
        module.symbols,
        vec![TypeScriptSymbol::ModuleExport {
            source_module: None,
            target: ExportTarget::Named { names: vec!["b".to_string()], aliases: vec![] },
        }]
    );
}
