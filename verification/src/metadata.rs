//! The metadata of a TypeScript library, from its package manifest.

use vstd::prelude::*;
use crate::module::text_option;
use crate::paths::{joined_path, path_join};
use crate::text::text_eq;

verus! {

/// What a manifest exports: one file, or a map from names to what they
/// export. No name stands twice in a map.
#[derive(Debug, PartialEq, Eq)]
pub enum ExportConfig {
    Simple(String),
    Nested(Vec<(String, ExportConfig)>),
}

/// The fields of a package manifest that the metadata needs.
#[derive(Debug, PartialEq, Eq)]
pub struct PackageJson {
    pub name: String,
    pub version: String,
    pub types: Option<String>,
    pub typings: Option<String>,
    pub exports: Option<ExportConfig>,
}

/// The metadata of a library.
#[derive(Debug, PartialEq, Eq)]
pub struct TSLibraryMetadata {
    /// The name of the library as its manifest gives it.
    pub name: String,
    /// The version of the library.
    pub version: Option<String>,
    /// The text of the readme of the library.
    pub documentation: String,
    /// The entry points: the names under which the library exports type
    /// declarations, each with the path of the declaration file.
    pub entry_point: Vec<(String, String)>,
}

/// A path without the `./` with which it begins, as often as it does.
pub open spec fn without_leading_dot_slash(path: Seq<char>) -> Seq<char>
    decreases path.len(),
{
    if path.len() >= 2 && path[0] == '.' && path[1] == '/' {
        without_leading_dot_slash(path.subrange(2, path.len() as int))
    } else {
        path
    }
}

/// The file that the conditions from `k` on give for `types`: that of the
/// first condition of that name, if it names one file.
pub open spec fn types_condition(conditions: Seq<(String, ExportConfig)>, k: int) -> Option<
    Seq<char>,
>
    decreases conditions.len() - k,
{
    if k < 0 || k >= conditions.len() {
        None
    } else if conditions[k].0@ == "types"@ {
        match conditions[k].1 {
            ExportConfig::Simple(path) => Some(path@),
            ExportConfig::Nested(_) => None,
        }
    } else {
        types_condition(conditions, k + 1)
    }
}

/// The entry point that the export `export` gives in the package at
/// `path`: its name with the file of its `types` condition below `path`,
/// if it is a map of conditions with such a file.
pub open spec fn exported_entry(export: (String, ExportConfig), path: Seq<char>) -> Option<
    (Seq<char>, Seq<char>),
> {
    match export.1 {
        ExportConfig::Nested(conditions) => match types_condition(conditions@, 0) {
            Some(file) => Some((export.0@, joined_path(path, without_leading_dot_slash(file)))),
            None => None,
        },
        ExportConfig::Simple(_) => None,
    }
}

/// The entry points that the first `k` exports give, in order.
pub open spec fn exported_entries_before(
    exports: Seq<(String, ExportConfig)>,
    path: Seq<char>,
    k: int,
) -> Seq<(Seq<char>, Seq<char>)>
    decreases k,
{
    if k <= 0 {
        Seq::empty()
    } else {
        match exported_entry(exports[k - 1], path) {
            Some(entry) => exported_entries_before(exports, path, k - 1).push(entry),
            None => exported_entries_before(exports, path, k - 1),
        }
    }
}

/// The entry points of the package at `path`: where the manifest has
/// exports, those that its map of exports gives; else the entry `.` with
/// the file that `types` names, or `typings` where there is no `types`.
pub open spec fn entry_points(package: PackageJson, path: Seq<char>) -> Seq<(Seq<char>, Seq<char>)> {
    match package.exports {
        Some(ExportConfig::Nested(exports)) => exported_entries_before(
            exports@,
            path,
            exports@.len() as int,
        ),
        Some(ExportConfig::Simple(_)) => Seq::empty(),
        None => match package.types {
            Some(file) => seq![("."@, joined_path(path, file@))],
            None => match package.typings {
                Some(file) => seq![("."@, joined_path(path, file@))],
                None => Seq::empty(),
            },
        },
    }
}

/// A path without the `./` with which it begins, as often as it does.
pub fn trim_leading_dot_slash(path: &str) -> (trimmed: String)
    ensures
        trimmed@ == without_leading_dot_slash(path@),
{
    let n = path.unicode_len();
    let mut i: usize = 0;
    assert(path@.subrange(0, n as int) =~= path@);
    while i < n && n - i >= 2 && path.get_char(i) == '.' && path.get_char(i + 1) == '/'
        invariant
            i <= n,
            n == path@.len(),
            without_leading_dot_slash(path@.subrange(i as int, n as int))
                == without_leading_dot_slash(path@),
        decreases n - i,
    {
        assert(path@.subrange(i as int, n as int).subrange(2, n - i) =~= path@.subrange(
            i + 2,
            n as int,
        ));
        i += 2;
    }
    path.substring_char(i, n).to_owned()
}

/// The file that the conditions give for `types`.
fn find_types_condition(conditions: &Vec<(String, ExportConfig)>) -> (file: Option<&String>)
    ensures
        match file {
            Some(f) => types_condition(conditions@, 0) == Some(f@),
            None => types_condition(conditions@, 0) is None,
        },
{
    let mut k: usize = 0;
    while k < conditions.len()
        invariant
            k <= conditions.len(),
            types_condition(conditions@, k as int) == types_condition(conditions@, 0),
        decreases conditions.len() - k,
    {
        if text_eq(conditions[k].0.as_str(), "types") {
            return match &conditions[k].1 {
                ExportConfig::Simple(path) => Some(path),
                ExportConfig::Nested(_) => None,
            };
        }
        k += 1;
    }
    None
}

/// The views of a list of pairs of texts.
pub open spec fn entry_views(entries: Seq<(String, String)>) -> Seq<(Seq<char>, Seq<char>)> {
    Seq::new(entries.len(), |i: int| (entries[i].0@, entries[i].1@))
}

/// The entry points of the package at `path`.
pub fn get_entry_point(package_json: &PackageJson, path: &str) -> (entries: Vec<(String, String)>)
    ensures
        entry_views(entries@) == entry_points(*package_json, path@),
{
    let mut entries: Vec<(String, String)> = Vec::new();
    assert(entry_views(entries@) =~= Seq::empty());
    match &package_json.exports {
        Some(ExportConfig::Nested(exports)) => {
            let mut k: usize = 0;
            assert(entry_views(entries@) =~= exported_entries_before(exports@, path@, 0));
            while k < exports.len()
                invariant
                    k <= exports.len(),
                    entry_views(entries@) == exported_entries_before(exports@, path@, k as int),
                decreases exports.len() - k,
            {
                match &exports[k].1 {
                    ExportConfig::Nested(conditions) => {
                        match find_types_condition(conditions) {
                            Some(file) => {
                                let trimmed = trim_leading_dot_slash(file.as_str());
                                let entry = (exports[k].0.clone(), path_join(path, trimmed.as_str()));
                                let ghost before = entries@;
                                let ghost view = (entry.0@, entry.1@);
                                entries.push(entry);
                                assert(entry_views(entries@) =~= entry_views(before).push(view));
                            },
                            None => {},
                        }
                    },
                    ExportConfig::Simple(_) => {},
                }
                k += 1;
            }
        },
        Some(ExportConfig::Simple(_)) => {},
        None => {
            let declared = match &package_json.types {
                Some(file) => Some(file),
                None => match &package_json.typings {
                    Some(file) => Some(file),
                    None => None,
                },
            };
            match declared {
                Some(file) => {
                    let entry = (".".to_owned(), path_join(path, file.as_str()));
                    let ghost view = (entry.0@, entry.1@);
                    entries.push(entry);
                    assert(entry_views(entries@) =~= seq![view]);
                },
                None => {},
            }
        },
    }
    entries
}

/// The names under which the readme of a package is looked for, in order.
pub fn readme_file_names() -> (names: Vec<String>)
    ensures
        names@.len() == 3,
        names@[0]@ == "README.md"@,
        names@[1]@ == "README.txt"@,
        names@[2]@ == "README"@,
{
    let mut names: Vec<String> = Vec::new();
    names.push("README.md".to_owned());
    names.push("README.txt".to_owned());
    names.push("README".to_owned());
    names
}

/// The first of the texts from `k` on that could be read.
pub open spec fn first_read(contents: Seq<Option<String>>, k: int) -> Seq<char>
    decreases contents.len() - k,
{
    if k < 0 || k >= contents.len() {
        Seq::empty()
    } else {
        match contents[k] {
            Some(text) => text@,
            None => first_read(contents, k + 1),
        }
    }
}

/// The text of the readme, given what could be read under each of the
/// names of [`readme_file_names`]: the first text that could be read, or
/// the empty text.
pub fn read_readme(contents: &Vec<Option<String>>) -> (documentation: String)
    ensures
        documentation@ == first_read(contents@, 0),
{
    let mut k: usize = 0;
    while k < contents.len()
        invariant
            k <= contents.len(),
            first_read(contents@, k as int) == first_read(contents@, 0),
        decreases contents.len() - k,
    {
        match &contents[k] {
            Some(text) => {
                return text.clone();
            },
            None => {},
        }
        k += 1;
    }
    String::new()
}

/// The metadata of the package at `path` with the manifest `package_json`
/// and the readme `documentation`.
pub fn extract_metadata(package_json: PackageJson, path: &str, documentation: String) -> (metadata:
    TSLibraryMetadata)
    ensures
        metadata.name@ == package_json.name@,
        text_option(metadata.version) == Some(package_json.version@),
        metadata.documentation@ == documentation@,
        entry_views(metadata.entry_point@) == entry_points(package_json, path@),
{
    let entry_point = get_entry_point(&package_json, path);
    TSLibraryMetadata {
        name: package_json.name,
        version: Some(package_json.version),
        documentation,
        entry_point,
    }
}

} // verus!
