use zarr_ls::common::{ActionSelect, LoopStep};
use zarr_ls::filesystem_utils::{path_to_selection, DirNode, FsEntry};
use zarr_ls::menu::{option_count, option_names, select_option};
use zarr_ls::walkers::Walker;
use zarr_ls::zarr_utils::{zarrfile_to_node, HierNode, NodeMeta, ZarrIdentifier, ZarrNode};

fn dir_sel(path: &str) -> ActionSelect {
    ActionSelect::Dir(DirNode::new(&String::from(path)))
}

fn entry(name: &str, is_dir: bool) -> FsEntry {
    FsEntry { name: String::from(name), is_dir }
}

fn array_node(path: &str, shape: Vec<u64>, dtype: &str) -> HierNode {
    HierNode {
        path: String::from(path),
        meta: NodeMeta::Array {
            shape,
            dtype: String::from(dtype),
            details: String::new(),
        },
        children: Vec::new(),
    }
}

fn group_node(path: &str, children: Vec<HierNode>) -> HierNode {
    HierNode { path: String::from(path), meta: NodeMeta::Group, children }
}

#[test]
fn round_trip_forward_then_back() {
    let mut walker = Walker::new(&dir_sel("/data"));
    let step = walker.advance(dir_sel("/data/raw"));
    assert_eq!(step, LoopStep::Continue);
    assert_eq!(walker.current_selection(), &dir_sel("/data/raw"));
    let step = walker.advance(ActionSelect::Back);
    assert_eq!(step, LoopStep::Continue);
    assert_eq!(walker.current_selection(), &dir_sel("/data"));
}

#[test]
fn back_at_session_root_is_a_no_op() {
    let mut walker = Walker::new(&dir_sel("/data"));
    walker.walk_back();
    assert_eq!(walker.current_selection(), &dir_sel("/data"));
}

#[test]
fn back_crosses_the_hierarchy_boundary() {
    let root = group_node("/", vec![array_node("/values", vec![10, 10], "float32")]);
    let zarr_root = ZarrNode::new_from_node(&root, Some(String::from("/data")));
    let mut walker = Walker::new(&dir_sel("/data"));
    walker.advance(ActionSelect::Zarr(zarr_root.clone()));

    // Move into the hierarchy's only child, then walk back out entirely.
    let options = walker.get_options(&Vec::<FsEntry>::new()).unwrap();
    let chosen = option_names(&options)[0].clone();
    let selected = select_option(&options, &chosen).unwrap().clone();
    assert!(matches!(selected, ActionSelect::Zarr(_)));
    walker.advance(selected);

    walker.advance(ActionSelect::Back);
    assert_eq!(walker.current_selection(), &ActionSelect::Zarr(zarr_root));
    walker.advance(ActionSelect::Back);
    assert_eq!(walker.current_selection(), &dir_sel("/data"));
}

#[test]
fn back_out_of_a_hierarchy_entered_directly() {
    // A session seeded on a hierarchy node with a known origin: Back steps
    // out into that directory even with no history left.
    let root = group_node("/", vec![]);
    let zarr_root = ZarrNode::new_from_node(&root, Some(String::from("/data")));
    let mut walker = Walker::new(&ActionSelect::Zarr(zarr_root));
    walker.walk_back();
    assert_eq!(walker.current_selection(), &dir_sel("/data"));
}

#[test]
fn back_without_origin_is_a_no_op() {
    let root = group_node("/", vec![]);
    let zarr_root = ZarrNode::new_from_node(&root, None);
    let mut walker = Walker::new(&ActionSelect::Zarr(zarr_root.clone()));
    walker.walk_back();
    assert_eq!(walker.current_selection(), &ActionSelect::Zarr(zarr_root));
}

#[test]
fn exit_and_error_terminate_without_moving() {
    let mut walker = Walker::new(&dir_sel("/data"));
    assert_eq!(walker.advance(ActionSelect::Exit), LoopStep::Exit);
    assert_eq!(walker.current_selection(), &dir_sel("/data"));
    let step = walker.advance(ActionSelect::Error(String::from("store unreadable")));
    assert_eq!(step, LoopStep::Error(String::from("store unreadable")));
    assert_eq!(walker.current_selection(), &dir_sel("/data"));
}

#[test]
fn listing_twice_yields_the_same_names() {
    let walker = Walker::new(&dir_sel("/data"));
    let listing = vec![entry("raw", true), entry("cube.zarr", true), entry("notes.txt", false)];
    let first = option_names(&walker.get_options(&listing).unwrap());
    let second = option_names(&walker.get_options(&listing).unwrap());
    assert_eq!(first, second);
}

#[test]
fn control_entries_always_present() {
    // A hierarchy node with no children still offers exactly Back and Exit.
    let root = group_node("/", vec![]);
    let walker = Walker::new(&ActionSelect::Zarr(ZarrNode::new_from_node(&root, None)));
    let options = walker.get_options(&Vec::<FsEntry>::new()).unwrap();
    assert_eq!(option_count(&options), 2);
    assert_eq!(option_names(&options), vec![String::from(".."), String::from("Exit!")]);
    assert_eq!(select_option(&options, &String::from("..")), Some(&ActionSelect::Back));
    assert_eq!(select_option(&options, &String::from("Exit!")), Some(&ActionSelect::Exit));

    // A directory with children offers them and exactly one pair of controls.
    let walker = Walker::new(&dir_sel("/data"));
    let listing = vec![entry("raw", true), entry("more", true)];
    let options = walker.get_options(&listing).unwrap();
    let names = option_names(&options);
    assert_eq!(names.iter().filter(|n| n.as_str() == "..").count(), 1);
    assert_eq!(names.iter().filter(|n| n.as_str() == "Exit!").count(), 1);
    assert_eq!(names.last().unwrap().as_str(), "Exit!");
}

#[test]
fn hidden_entries_are_excluded() {
    let walker = Walker::new(&dir_sel("/data"));
    let listing = vec![
        entry(".DS_Store", false),
        entry(".git", true),
        entry("raw", true),
        entry(".hidden.zarr", true),
    ];
    let names = option_names(&walker.get_options(&listing).unwrap());
    assert_eq!(names, vec![String::from("raw"), String::from(".."), String::from("Exit!")]);
}

#[test]
fn non_navigable_entries_are_dropped() {
    let walker = Walker::new(&dir_sel("/data"));
    let listing = vec![entry("notes.txt", false), entry("raw", true)];
    let names = option_names(&walker.get_options(&listing).unwrap());
    assert_eq!(names, vec![String::from("raw"), String::from(".."), String::from("Exit!")]);
}

#[test]
fn classification_of_paths() {
    let sel = path_to_selection(&String::from("/data/raw"), true);
    assert_eq!(sel, dir_sel("/data/raw"));

    // A path that is neither a directory nor a store is a classification
    // error.
    let sel = path_to_selection(&String::from("/data/notes.txt"), false);
    assert!(matches!(sel, ActionSelect::Error(_)));

    // A path with the reserved extension but no store behind it surfaces
    // the store's error for that entry alone.
    let sel = path_to_selection(&String::from("/nonexistent-dir/cube.zarr"), true);
    assert!(matches!(sel, ActionSelect::Error(_)));
}

#[test]
fn node_identifiers_resolve_to_themselves() {
    let n = group_node("/", vec![array_node("/x", vec![1], "int8")]);
    let r = zarrfile_to_node(&ZarrIdentifier::ZarrNode(n.clone()));
    assert_eq!(r, Ok(n));
}

#[test]
fn dir_node_accessors() {
    let d = DirNode::new(&String::from("/data/raw"));
    assert_eq!(d.path(), "/data/raw");
    assert_eq!(d.parent(), Some(String::from("/data")));
    let root = DirNode::new(&String::from("relative"));
    assert_eq!(root.parent(), None);
}

#[test]
fn hierarchy_children_keep_listing_order() {
    let root = group_node(
        "/",
        vec![array_node("/a", vec![1], "int8"), array_node("/b", vec![2], "int16")],
    );
    let walker = Walker::new(&ActionSelect::Zarr(ZarrNode::new_from_node(&root, None)));
    let names = option_names(&walker.get_options(&Vec::<FsEntry>::new()).unwrap());
    assert_eq!(names.len(), 4);
    assert!(names[0].contains("/a[1] - int8"));
    assert!(names[1].contains("/b[2] - int16"));
    assert_eq!(names[2], "..");
    assert_eq!(names[3], "Exit!");
}

#[test]
fn control_label_wins_over_a_real_entry() {
    // A real directory literally named like the exit label keeps its slot
    // in the order, but the control entry silently wins the mapping slot —
    // the documented limitation of the reserved names.
    let walker = Walker::new(&dir_sel("/data"));
    let listing = vec![entry("Exit!", true), entry("raw", true)];
    let options = walker.get_options(&listing).unwrap();
    let names = option_names(&options);
    assert_eq!(
        names,
        vec![String::from("Exit!"), String::from("raw"), String::from("..")],
    );
    assert_eq!(select_option(&options, &String::from("Exit!")), Some(&ActionSelect::Exit));
}
