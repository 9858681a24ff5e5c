use daipendency_extractor_typescript::dependencies::{
    recursive_resolve_dependency_path, resolve_dependency_path, DependencyResolutionError,
    DirectoryProbe,
};

fn directory(path: &str, has_manifest: bool, has_dependency: bool) -> DirectoryProbe {
    DirectoryProbe { path: path.to_string(), has_manifest, has_dependency }
}

#[test]
fn dependencies_missing_manifest() {
    let directories = vec![directory("/pkg", false, false), directory("/", false, false)];

    let result = resolve_dependency_path("some-dep", &directories);

    assert!(matches!(
        result,
        Err(DependencyResolutionError::MissingDependency(msg)) if msg == "some-dep"
    ));
}

#[test]
fn dependant_contains_dependency() {
    let directories = vec![directory("/pkg", true, true), directory("/", false, false)];

    let result = resolve_dependency_path("some-dep", &directories);

    assert_eq!(result.unwrap(), "/pkg/node_modules/some-dep");
}

#[test]
fn parent_contains_dependency() {
    let directories = vec![
        directory("/pkg/child", true, false),
        directory("/pkg", true, true),
        directory("/", false, false),
    ];

    let result = resolve_dependency_path("some-dep", &directories);

    assert_eq!(result.unwrap(), "/pkg/node_modules/some-dep");
}

#[test]
fn grandparent_contains_dependency() {
    let directories = vec![
        directory("/pkg/parent/child", true, false),
        directory("/pkg/parent", true, false),
        directory("/pkg", true, true),
        directory("/", false, false),
    ];

    let result = resolve_dependency_path("some-dep", &directories);

    assert_eq!(result.unwrap(), "/pkg/node_modules/some-dep");
}

#[test]
fn search_ends_at_a_directory_without_manifest() {
    let directories = vec![
        directory("/pkg/child", true, false),
        directory("/pkg", false, true),
        directory("/", true, true),
    ];

    assert_eq!(recursive_resolve_dependency_path("dep", &directories, 0), None);
    assert_eq!(recursive_resolve_dependency_path("dep", &directories, 1), None);
    assert_eq!(
        recursive_resolve_dependency_path("dep", &directories, 2),
        Some("/node_modules/dep".to_string())
    );
    assert_eq!(recursive_resolve_dependency_path("dep", &directories, 3), None);
    assert_eq!(recursive_resolve_dependency_path("dep", &vec![], 0), None);
}

#[test]
fn nearest_directory_wins() {
    let directories = vec![directory("/a/b", true, true), directory("/a", true, true)];

    assert_eq!(
        recursive_resolve_dependency_path("@scope/dep", &directories, 0),
        Some("/a/b/node_modules/@scope/dep".to_string())
    );
    assert_eq!(
        resolve_dependency_path("missing", &vec![directory("/a", true, false)]),
        Err(DependencyResolutionError::MissingDependency("missing".to_string()))
    );
}
