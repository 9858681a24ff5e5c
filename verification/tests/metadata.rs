use std::path::Path;

use daipendency_extractor_typescript::metadata::{
    extract_metadata, get_entry_point, read_readme, readme_file_names, trim_leading_dot_slash,
    ExportConfig, PackageJson,
};

const DIRECTORY: &str = "/tmp/test-pkg";

fn joined(file: &str) -> String {
    Path::new(DIRECTORY).join(file).to_string_lossy().into_owned()
}

fn package(types: Option<&str>, typings: Option<&str>, exports: Option<ExportConfig>) -> PackageJson {
    PackageJson {
        name: "test-pkg".to_string(),
        version: "1.0.0".to_string(),
        types: types.map(|s| s.to_string()),
        typings: typings.map(|s| s.to_string()),
        exports,
    }
}

fn simple(file: &str) -> ExportConfig {
    ExportConfig::Simple(file.to_string())
}

fn nested(entries: Vec<(&str, ExportConfig)>) -> ExportConfig {
    ExportConfig::Nested(entries.into_iter().map(|(name, config)| (name.to_string(), config)).collect())
}

fn entry<'a>(entries: &'a [(String, String)], name: &str) -> Option<&'a String> {
    entries.iter().find(|(key, _)| key == name).map(|(_, path)| path)
}

#[test]
fn valid_manifest() {
    let metadata =
        extract_metadata(package(Some("dist/index.d.ts"), None, None), DIRECTORY, String::new());

    assert_eq!(metadata.name, "test-pkg");
    assert_eq!(metadata.version, Some("1.0.0".to_string()));
    assert_eq!(entry(&metadata.entry_point, "."), Some(&joined("dist/index.d.ts")));
}

#[test]
fn missing_readme() {
    let documentation = read_readme(&vec![None, None, None]);

    assert_eq!(documentation, "");
    assert_eq!(read_readme(&vec![]), "");
}

#[test]
fn readme_md() {
    let documentation = read_readme(&vec![Some("# Test Package".to_string()), None, None]);

    assert_eq!(documentation, "# Test Package");
}

#[test]
fn readme_txt() {
    let documentation = read_readme(&vec![None, Some("# Test Package".to_string()), None]);

    assert_eq!(documentation, "# Test Package");
}

#[test]
fn readme_without_extension() {
    let documentation = read_readme(&vec![None, None, Some("# Test Package".to_string())]);

    assert_eq!(documentation, "# Test Package");
}

#[test]
fn first_readme_wins() {
    let documentation =
        read_readme(&vec![None, Some("text".to_string()), Some("plain".to_string())]);

    assert_eq!(documentation, "text");
    assert_eq!(readme_file_names(), vec!["README.md", "README.txt", "README"]);
}

#[test]
fn documentation_is_kept() {
    let metadata = extract_metadata(package(None, None, None), DIRECTORY, "# Docs".to_string());

    assert_eq!(metadata.documentation, "# Docs");
}

#[test]
fn missing_types() {
    let entries = get_entry_point(&package(None, None, None), DIRECTORY);

    assert!(entries.is_empty());
}

#[test]
fn valid_manifest_with_typings() {
    let entries = get_entry_point(&package(None, Some("dist/index.d.ts"), None), DIRECTORY);

    assert_eq!(entry(&entries, "."), Some(&joined("dist/index.d.ts")));
}

#[test]
fn valid_manifest_with_both_types_and_typings() {
    let entries = get_entry_point(
        &package(Some("dist/types.d.ts"), Some("dist/typings.d.ts"), None),
        DIRECTORY,
    );

    assert_eq!(entry(&entries, "."), Some(&joined("dist/types.d.ts")));
    assert_eq!(entries.len(), 1);
}

#[test]
fn no_exports() {
    let entries = get_entry_point(&package(Some("dist/index.d.ts"), None, None), DIRECTORY);

    assert_eq!(entry(&entries, "."), Some(&joined("dist/index.d.ts")));
}

#[test]
fn export_without_types() {
    let exports = nested(vec![(".", nested(vec![("import", simple("./dist/index.js"))]))]);

    let entries = get_entry_point(&package(Some("dist/index.d.ts"), None, Some(exports)), DIRECTORY);

    assert!(entries.is_empty());
}

#[test]
fn single_type_export() {
    let exports = nested(vec![(".", nested(vec![("types", simple("./dist/index.d.ts"))]))]);

    let entries = get_entry_point(&package(Some("dist/index.d.ts"), None, Some(exports)), DIRECTORY);

    assert_eq!(entries.len(), 1);
    assert_eq!(entry(&entries, "."), Some(&joined("dist/index.d.ts")));
}

#[test]
fn multiple_type_exports() {
    let exports = nested(vec![
        (".", nested(vec![("types", simple("./dist/index.d.ts"))])),
        ("./utils", nested(vec![("types", simple("./dist/utils.d.ts"))])),
    ]);

    let entries = get_entry_point(&package(Some("dist/index.d.ts"), None, Some(exports)), DIRECTORY);

    assert_eq!(entries.len(), 2);
    assert_eq!(entry(&entries, "."), Some(&joined("dist/index.d.ts")));
    assert_eq!(entry(&entries, "./utils"), Some(&joined("dist/utils.d.ts")));
}

#[test]
fn export_as_string() {
    let exports = nested(vec![(".", simple("./dist/index.js"))]);

    let entries = get_entry_point(&package(Some("dist/index.d.ts"), None, Some(exports)), DIRECTORY);

    assert!(entries.is_empty());
}

#[test]
fn exports_as_string() {
    let exports = simple("./dist/index.js");

    let entries = get_entry_point(&package(Some("dist/index.d.ts"), None, Some(exports)), DIRECTORY);

    assert!(entries.is_empty());
}

#[test]
fn types_condition_among_others() {
    let exports = nested(vec![
        (
            ".",
            nested(vec![
                ("import", simple("./dist/index.mjs")),
                ("types", simple("././dist/index.d.ts")),
                ("require", simple("./dist/index.cjs")),
            ]),
        ),
        ("./nested", nested(vec![("types", nested(vec![("default", simple("./x.d.ts"))]))])),
    ]);

    let entries = get_entry_point(&package(None, None, Some(exports)), DIRECTORY);

    assert_eq!(entries, vec![(".".to_string(), "/tmp/test-pkg/dist/index.d.ts".to_string())]);
}

#[test]
fn leading_dot_slash_is_trimmed_as_often_as_it_stands() {
    assert_eq!(trim_leading_dot_slash("./dist/index.d.ts"), "dist/index.d.ts");
    assert_eq!(trim_leading_dot_slash("././a"), "a");
    assert_eq!(trim_leading_dot_slash("dist/./a"), "dist/./a");
    assert_eq!(trim_leading_dot_slash("../a"), "../a");
    assert_eq!(trim_leading_dot_slash("./"), "");
    assert_eq!(trim_leading_dot_slash("."), ".");
    assert_eq!(trim_leading_dot_slash(""), "");
    assert_eq!(trim_leading_dot_slash("./é/ü"), "é/ü");
}
