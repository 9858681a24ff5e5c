use daipendency_extractor_typescript::kinds::{FieldName, NodeKind};
use daipendency_extractor_typescript::records::{tree_from_records, NodeRecord};

fn record(kind: &str, field: Option<&str>, depth: usize, start: usize, end: usize) -> NodeRecord {
    NodeRecord {
        kind: kind.to_string(),
        named: kind.chars().all(|c| c.is_ascii_lowercase() || c == '_'),
        field: field.map(|name| name.to_string()),
        depth,
        start,
        end,
    }
}

/// The records of `export type A = B; type C = D;`.
fn records() -> Vec<NodeRecord> {
    vec![
        record("program", None, 0, 0, 31),
        record("export_statement", None, 1, 0, 18),
        record("type_alias_declaration", Some("declaration"), 2, 7, 18),
        record("type_identifier", Some("name"), 3, 12, 13),
        record("=", None, 3, 14, 15),
        record("type_identifier", Some("value"), 3, 16, 17),
        record("type_alias_declaration", None, 1, 19, 30),
        record("type_identifier", Some("name"), 2, 24, 25),
    ]
}

const TEXT: &str = "export type A = B; type C = D; ";

#[test]
fn parent_is_the_last_record_one_level_higher() {
    let tree = tree_from_records(TEXT, &records()).unwrap();

    let parents: Vec<usize> = (0..tree.len()).map(|i| tree.node(i).parent).collect();
    assert_eq!(parents, vec![0, 0, 1, 2, 2, 2, 0, 6]);
    assert_eq!(tree.text(), TEXT);
    assert_eq!(tree.node(2).kind, NodeKind::TypeAliasDeclaration);
    assert_eq!(tree.node(2).field, FieldName::Other);
    assert_eq!(tree.node(3).kind, NodeKind::TypeIdentifier);
    assert_eq!(tree.node(3).field, FieldName::Name);
    assert_eq!(tree.node(4).kind, NodeKind::EqualsSign);
    assert!(!tree.node(4).named);
    assert_eq!(tree.node(5).field, FieldName::Value);
    assert_eq!(tree.node(0).kind, NodeKind::Other);
    assert_eq!(tree.node(0).field, FieldName::Unnamed);
    assert_eq!((tree.node(7).start, tree.node(7).end), (24, 25));
    assert_eq!(tree.node_text(7), "C");
}

#[test]
fn depths_that_follow_no_walk_stand_for_no_tree() {
    assert!(tree_from_records(TEXT, &vec![]).is_none());

    let mut deep_root = records();
    deep_root[0].depth = 1;
    assert!(tree_from_records(TEXT, &deep_root).is_none());

    let mut second_root = records();
    second_root[6].depth = 0;
    assert!(tree_from_records(TEXT, &second_root).is_none());

    let mut leap = records();
    leap[7].depth = 3;
    assert!(tree_from_records(TEXT, &leap).is_none());

    let mut step_down = records();
    step_down[7].depth = 1;
    let tree = tree_from_records(TEXT, &step_down).unwrap();
    assert_eq!(tree.node(7).parent, 0);
}

#[test]
fn records_outside_the_text_stand_for_no_tree() {
    let mut beyond = records();
    beyond[0].end = 32;
    assert!(tree_from_records(TEXT, &beyond).is_none());

    let mut backwards = records();
    backwards[7].start = 18;
    backwards[7].end = 19;
    assert!(tree_from_records(TEXT, &backwards).is_none());

    let split = vec![record("program", None, 0, 0, 2), record("identifier", None, 1, 1, 2)];
    assert!(tree_from_records("é", &split).is_none());
    let whole = vec![record("program", None, 0, 0, 2), record("identifier", None, 1, 0, 2)];
    assert!(tree_from_records("é", &whole).is_some());
}
