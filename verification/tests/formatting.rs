use zarr_ls::format::{format_array_infos, format_group_infos, format_shape,
    format_zarr_option_name};
use zarr_ls::zarr_utils::{HierNode, NodeMeta};

fn array_node(path: &str, shape: Vec<u64>, dtype: &str, details: &str) -> HierNode {
    HierNode {
        path: String::from(path),
        meta: NodeMeta::Array {
            shape,
            dtype: String::from(dtype),
            details: String::from(details),
        },
        children: Vec::new(),
    }
}

fn group_node(path: &str, children: Vec<HierNode>) -> HierNode {
    HierNode { path: String::from(path), meta: NodeMeta::Group, children }
}

#[test]
fn shape_rendering() {
    assert_eq!(format_shape(&vec![]), "[]");
    assert_eq!(format_shape(&vec![10]), "[10]");
    assert_eq!(format_shape(&vec![10, 10]), "[10, 10]");
    assert_eq!(format_shape(&vec![1, 2, 3]), "[1, 2, 3]");
}

#[test]
fn array_compact() {
    // The compact form holds path, shape and element type, and never the
    // metadata block.
    let n = array_node("/values", vec![10, 10], "float32", "{\n  \"zarr_format\": 3\n}");
    assert_eq!(format_array_infos(&n, false), "/values[10, 10] - float32");
}

#[test]
fn array_verbose() {
    // The verbose form appends the node's full serialized metadata.
    let n = array_node("/values", vec![10, 10], "float32", "{\n  \"zarr_format\": 3\n}");
    assert_eq!(
        format_array_infos(&n, true),
        "Zarr Array: /values[10, 10] - float32\n{\n  \"zarr_format\": 3\n}",
    );
}

#[test]
fn group_without_children() {
    let g = group_node("/", vec![]);
    assert_eq!(format_group_infos(&g), "Zarr Group: / - contains 0 elements");
}

#[test]
fn group_with_array_child() {
    let g = group_node("/", vec![array_node("/values", vec![10, 10], "float32", "")]);
    assert_eq!(
        format_group_infos(&g),
        "Zarr Group: / - contains 1 elements\n  -> /values[10, 10] - float32",
    );
}

#[test]
fn nested_groups_indent_with_depth() {
    let inner = group_node("/a/b", vec![array_node("/a/b/c", vec![2], "int8", "")]);
    let outer = group_node("/a", vec![inner]);
    assert_eq!(
        format_group_infos(&outer),
        "Zarr Group: /a - contains 1 elements\n  -> Zarr Group: /a/b - contains 1 elements\n    -> /a/b/c[2] - int8",
    );
}

#[test]
fn option_name_dispatches_on_kind() {
    let a = array_node("/x", vec![3], "uint8", "{}");
    assert_eq!(format_zarr_option_name(&a), "Zarr Array: /x[3] - uint8\n{}");
    let g = group_node("/g", vec![]);
    assert_eq!(format_zarr_option_name(&g), "Zarr Group: /g - contains 0 elements");
}
