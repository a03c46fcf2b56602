// Browsing a real store on disk: the store is created with zarrs itself in
// a temporary directory, then browsed through the library, which opens it
// through the same crate.
use std::sync::Arc;
use zarr_ls::common::ActionSelect;
use zarr_ls::filesystem_utils::{path_to_selection, DirNode, FsEntry};
use zarr_ls::menu::{option_count, option_names, select_option};
use zarr_ls::walkers::Walker;
use zarr_ls::zarr_utils::{ZarrIdentifier, ZarrNode};
use zarrs::array::ArrayBuilder;
use zarrs::filesystem::FilesystemStore;
use zarrs::group::GroupBuilder;

fn create_store(dir: &std::path::Path) -> String {
    let store_path = dir.join("cube.zarr");
    let store = Arc::new(FilesystemStore::new(&store_path).unwrap());
    GroupBuilder::new().build(store.clone(), "/").unwrap().store_metadata().unwrap();
    ArrayBuilder::new(vec![10, 10], vec![5, 5], "float32", 0.0f32)
        .build(store, "/values")
        .unwrap()
        .store_metadata()
        .unwrap();
    store_path.to_string_lossy().to_string()
}

#[test]
fn opening_a_stored_hierarchy_by_path() {
    let tmp = tempfile::tempdir().unwrap();
    let store_path = create_store(tmp.path());

    let sel = path_to_selection(&store_path, true);
    let zarr = match sel {
        ActionSelect::Zarr(z) => z,
        other => panic!("expected a hierarchy root, got {:?}", other),
    };
    assert_eq!(
        zarr.parent_directory(),
        Some(&tmp.path().to_string_lossy().to_string()),
    );

    // Listing the root shows its one array child, rendered with shape and
    // element type, plus the controls.
    let walker = Walker::new(&ActionSelect::Zarr(zarr));
    let options = walker.get_options(&Vec::<FsEntry>::new()).unwrap();
    assert_eq!(option_count(&options), 3);
    let names = option_names(&options);
    assert!(names[0].contains("/values"));
    assert!(names[0].contains("[10, 10]"));
    assert!(names[0].contains("float32"));
    // The verbose entry carries the store's full serialized metadata.
    assert!(names[0].contains("zarr_format"));
    assert!(names[0].contains("chunk_grid"));
}

#[test]
fn browsing_from_the_directory_above() {
    let tmp = tempfile::tempdir().unwrap();
    let dir = tmp.path().to_string_lossy().to_string();
    create_store(tmp.path());

    let walker = Walker::new(&ActionSelect::Dir(DirNode::new(&dir)));
    let listing = vec![FsEntry { name: String::from("cube.zarr"), is_dir: true }];
    let options = walker.get_options(&listing).unwrap();
    assert_eq!(
        option_names(&options),
        vec![String::from("cube.zarr"), String::from(".."), String::from("Exit!")],
    );
    let cube = select_option(&options, &String::from("cube.zarr")).unwrap();
    match cube {
        ActionSelect::Zarr(z) => assert_eq!(z.parent_directory(), Some(&dir)),
        other => panic!("expected a hierarchy root, got {:?}", other),
    }
}

#[test]
fn resolving_an_identifier_by_path() {
    let tmp = tempfile::tempdir().unwrap();
    let store_path = create_store(tmp.path());
    let z = ZarrNode::new(&ZarrIdentifier::ZarrPath(store_path)).unwrap();
    assert_eq!(z.parent_directory(), Some(&tmp.path().to_string_lossy().to_string()));
}
