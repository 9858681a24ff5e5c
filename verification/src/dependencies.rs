//! Where a dependency of a package is installed.

use vstd::prelude::*;
use crate::paths::{joined_path, path_join};

verus! {

/// Why the path of a dependency could not be given.
#[derive(Debug, PartialEq, Eq)]
pub enum DependencyResolutionError {
    /// The package has no dependency of that name.
    MissingDependency(String),
}

/// What the file system holds in one directory on the way from a package up
/// to the root.
#[derive(Debug, PartialEq, Eq)]
pub struct DirectoryProbe {
    /// The directory.
    pub path: String,
    /// Whether the directory holds a `package.json`.
    pub has_manifest: bool,
    /// Whether the directory holds the dependency under `node_modules`.
    pub has_dependency: bool,
}

/// Where dependency `name` is installed below `directory`.
pub open spec fn installed_path(directory: Seq<char>, name: Seq<char>) -> Seq<char> {
    joined_path(joined_path(directory, "node_modules"@), name)
}

/// The first directory from `level` on that holds the dependency, as long
/// as every directory before it holds a manifest.
pub open spec fn dependency_level(directories: Seq<DirectoryProbe>, level: int) -> Option<int>
    decreases directories.len() - level,
{
    if level < 0 || level >= directories.len() {
        None
    } else if !directories[level].has_manifest {
        None
    } else if directories[level].has_dependency {
        Some(level)
    } else {
        dependency_level(directories, level + 1)
    }
}

/// The path of dependency `name`, looked for in `directories[level]` and
/// then in the directories after it, which are its ancestors, nearest
/// first. The search ends without a result at the first directory that has
/// no manifest.
pub fn recursive_resolve_dependency_path(
    name: &str,
    directories: &Vec<DirectoryProbe>,
    level: usize,
) -> (path: Option<String>)
    ensures
        match dependency_level(directories@, level as int) {
            Some(found) => path matches Some(p) && p@ == installed_path(
                directories@[found].path@,
                name@,
            ),
            None => path is None,
        },
    decreases directories.len() - level,
{
    if level >= directories.len() {
        return None;
    }
    let directory = &directories[level];
    if !directory.has_manifest {
        return None;
    }
    if directory.has_dependency {
        let modules = path_join(directory.path.as_str(), "node_modules");
        return Some(path_join(modules.as_str(), name));
    }
    recursive_resolve_dependency_path(name, directories, level + 1)
}

/// The path of dependency `name` of the package in `directories[0]`, or
/// `MissingDependency` with the name where the search finds none.
pub fn resolve_dependency_path(name: &str, directories: &Vec<DirectoryProbe>) -> (path: Result<
    String,
    DependencyResolutionError,
>)
    ensures
        match dependency_level(directories@, 0) {
            Some(found) => path matches Ok(p) && p@ == installed_path(
                directories@[found].path@,
                name@,
            ),
            None => path matches Err(DependencyResolutionError::MissingDependency(n)) && n@
                == name@,
        },
{
    match recursive_resolve_dependency_path(name, directories, 0) {
        Some(path) => Ok(path),
        None => Err(DependencyResolutionError::MissingDependency(name.to_owned())),
    }
}

} // verus!
