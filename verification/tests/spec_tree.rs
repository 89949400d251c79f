use prost_unwrap::spec_tree::SpecTree;
use prost_unwrap::spec_tree::SpecTreeLeaf;

fn path(parts: &[&str]) -> Vec<String> {
    parts.iter().map(|s| s.to_string()).collect()
}

#[test]
fn include_push_single() {
    let mut tree = SpecTree::new();
    tree.push(SpecTreeLeaf::new_struct_spec(
        path(&["root", "child", "StructA"]),
        Vec::new(),
    ))
    .unwrap();

    assert!(tree
        .get_leaf(&vec![
            "root".to_string(),
            "child".to_string(),
            "StructA".to_string(),
        ])
        .is_some());
}

#[test]
fn include_push_multiple() {
    let mut tree = SpecTree::new();
    tree.push(SpecTreeLeaf::new_struct_spec(
        path(&["root", "child", "StructA"]),
        Vec::new(),
    ))
    .unwrap();
    tree.push(SpecTreeLeaf::new_enum_spec(path(&[
        "root", "child", "EnumA",
    ])))
    .unwrap();

    assert!(tree
        .get_leaf(&vec![
            "root".to_string(),
            "child".to_string(),
            "StructA".to_string(),
        ])
        .is_some());

    assert!(tree
        .get_leaf(&vec![
            "root".to_string(),
            "child".to_string(),
            "EnumA".to_string()
        ])
        .is_some());
}

#[test]
fn include_push_conflict() {
    let mut tree = SpecTree::new();
    tree.push(SpecTreeLeaf::new_struct_spec(
        path(&["root", "child", "StructA"]),
        Vec::new(),
    ))
    .unwrap();
    tree.push(SpecTreeLeaf::new_struct_spec(
        path(&["root", "child", "StructA", "Whatever"]),
        Vec::new(),
    ))
    .unwrap();

    assert!(tree
        .get_leaf(&vec![
            "root".to_string(),
            "child".to_string(),
            "StructA".to_string(),
        ])
        .is_some());

    assert!(tree
        .get_leaf(&vec![
            "root".to_string(),
            "child".to_string(),
            "StructA".to_string(),
            "Whatever".to_string(),
        ])
        .is_some());
}

#[test]
fn include_get_non_existent() {
    let tree = SpecTree::new();

    assert!(tree
        .get_leaf(&vec![
            "root".to_string(),
            "child".to_string(),
            "EnumA".to_string()
        ])
        .is_none());
}

#[test]
fn include_get_module() {
    let mut tree = SpecTree::new();
    tree.push(SpecTreeLeaf::new_struct_spec(
        path(&["root", "child", "StructA"]),
        Vec::new(),
    ))
    .unwrap();

    assert!(tree
        .get_leaf(&vec!["root".to_string(), "child".to_string()])
        .is_none());
}

#[test]
#[should_panic]
fn include_push_diplicate_panic() {
    let mut tree = SpecTree::new();
    tree.push(SpecTreeLeaf::new_struct_spec(
        path(&["root", "child", "StructA"]),
        Vec::new(),
    ))
    .unwrap();
    tree.push(SpecTreeLeaf::new_struct_spec(
        path(&["root", "child", "StructA"]),
        Vec::new(),
    ))
    .unwrap();
}

#[test]
fn include_args_push_single() {
    let mut tree = SpecTree::new();
    tree.push(SpecTreeLeaf::new_struct_spec(
        path(&["root", "child", "StructA"]),
        Vec::new(),
    ))
    .unwrap();

    assert!(tree
        .get_leaf(&path(&["root", "child", "StructA"]))
        .is_some());
}

#[test]
fn include_args_push_multiple() {
    let mut tree = SpecTree::new();
    tree.push(SpecTreeLeaf::new_struct_spec(
        path(&["root", "child", "StructA"]),
        Vec::new(),
    ))
    .unwrap();
    tree.push(SpecTreeLeaf::new_enum_spec(path(&[
        "root", "child", "EnumA",
    ])))
    .unwrap();

    assert!(tree
        .get_leaf(&path(&["root", "child", "StructA"]))
        .is_some());

    assert!(tree.get_leaf(&path(&["root", "child", "EnumA"])).is_some());
}

#[test]
fn include_args_push_conflict() {
    let mut tree = SpecTree::new();
    tree.push(SpecTreeLeaf::new_struct_spec(
        path(&["root", "child", "StructA"]),
        Vec::new(),
    ))
    .unwrap();
    tree.push(SpecTreeLeaf::new_struct_spec(
        path(&["root", "child", "StructA", "Whatever"]),
        Vec::new(),
    ))
    .unwrap();

    assert!(tree
        .get_leaf(&path(&["root", "child", "StructA"]))
        .is_some());

    assert!(tree
        .get_leaf(&path(&["root", "child", "StructA", "Whatever"]))
        .is_some());
}

#[test]
fn include_args_get_non_existent() {
    let tree = SpecTree::new();

    assert!(tree.get_leaf(&path(&["root", "child", "EnumA"])).is_none());
}

#[test]
fn include_args_get_module() {
    let mut tree = SpecTree::new();
    tree.push(SpecTreeLeaf::new_struct_spec(
        path(&["root", "child", "StructA"]),
        Vec::new(),
    ))
    .unwrap();

    assert!(tree.get_leaf(&path(&["root", "child"])).is_none());
}

#[test]
#[should_panic]
fn include_args_push_diplicate_panic() {
    let mut tree = SpecTree::new();
    tree.push(SpecTreeLeaf::new_struct_spec(
        path(&["root", "child", "StructA"]),
        Vec::new(),
    ))
    .unwrap();
    tree.push(SpecTreeLeaf::new_struct_spec(
        path(&["root", "child", "StructA"]),
        Vec::new(),
    ))
    .unwrap();
}

#[test]
fn push_reports_the_colliding_path() {
    let mut tree = SpecTree::new();
    tree.push(SpecTreeLeaf::new_struct_spec(
        path(&["root", "child", "StructA"]),
        Vec::new(),
    ))
    .unwrap();
    let err = tree
        .push(SpecTreeLeaf::new_enum_spec(path(&[
            "root", "child", "StructA",
        ])))
        .unwrap_err();
    assert_eq!(err.fqn, path(&["root", "child", "StructA"]));
}

#[test]
fn get_leaf_empty_path_is_none() {
    let mut tree = SpecTree::new();
    tree.push(SpecTreeLeaf::new_struct_spec(path(&["A"]), Vec::new()))
        .unwrap();
    assert!(tree.get_leaf(&Vec::new()).is_none());
}
