use zarr_ls::common::ActionSelect;
use zarr_ls::filesystem_utils::{DirNode, FsEntry};
use zarr_ls::menu::{option_count, option_names, select_option};
use zarr_ls::walkers::Walker;
use zarr_ls::zarr_utils::{HierNode, NodeMeta, ZarrNode};

fn entry(name: &str, is_dir: bool) -> FsEntry {
    FsEntry { name: String::from(name), is_dir }
}

#[test]
fn browsing_a_data_directory() {
    // /data holds a sub-directory, a hierarchy root and a hidden file.
    let walker = Walker::new(&ActionSelect::Dir(DirNode::new(&String::from("/data"))));
    let listing = vec![entry("raw", true), entry("cube.zarr", true), entry(".DS_Store", false)];
    let options = walker.get_options(&listing).unwrap();

    assert_eq!(option_count(&options), 4);
    let names = option_names(&options);
    assert_eq!(
        names,
        vec![
            String::from("raw"),
            String::from("cube.zarr"),
            String::from(".."),
            String::from("Exit!"),
        ],
    );

    let raw = select_option(&options, &String::from("raw")).unwrap();
    assert_eq!(raw, &ActionSelect::Dir(DirNode::new(&String::from("/data/raw"))));

    // With nothing stored on disk at /data/cube.zarr, the eager open
    // reports the store's failure as this entry's selection.
    let cube = select_option(&options, &String::from("cube.zarr")).unwrap();
    assert!(matches!(cube, ActionSelect::Error(_)));

    assert_eq!(select_option(&options, &String::from("..")), Some(&ActionSelect::Back));
    assert_eq!(select_option(&options, &String::from("Exit!")), Some(&ActionSelect::Exit));
    assert_eq!(select_option(&options, &String::from(".DS_Store")), None);
}

#[test]
fn browsing_into_a_hierarchy() {
    // The hierarchy at /data/cube.zarr: a group with one 10x10 float32
    // array child; entering it and listing shows one child entry whose
    // label carries the shape and the element type, plus the controls.
    let root = HierNode {
        path: String::from("/"),
        meta: NodeMeta::Group,
        children: vec![HierNode {
            path: String::from("/values"),
            meta: NodeMeta::Array {
                shape: vec![10, 10],
                dtype: String::from("float32"),
                details: String::new(),
            },
            children: Vec::new(),
        }],
    };
    let zarr_root = ZarrNode::new_from_node(&root, Some(String::from("/data")));
    let mut walker = Walker::new(&ActionSelect::Dir(DirNode::new(&String::from("/data"))));
    walker.advance(ActionSelect::Zarr(zarr_root));

    let options = walker.get_options(&Vec::<FsEntry>::new()).unwrap();
    assert_eq!(option_count(&options), 3);
    let names = option_names(&options);
    assert!(names[0].contains("[10, 10]"));
    assert!(names[0].contains("float32"));
    assert_eq!(names[1], "..");
    assert_eq!(names[2], "Exit!");

    let child = select_option(&options, &names[0]).unwrap().clone();
    match &child {
        ActionSelect::Zarr(_) => {}
        other => panic!("expected a hierarchy child, got {:?}", other),
    }

    // The child keeps the origin directory, so backing out of the whole
    // hierarchy lands on /data.
    walker.advance(child);
    walker.advance(ActionSelect::Back);
    walker.advance(ActionSelect::Back);
    assert_eq!(
        walker.current_selection(),
        &ActionSelect::Dir(DirNode::new(&String::from("/data"))),
    );
}
