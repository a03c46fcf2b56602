use zarr_ls::text::{has_zarr_suffix, join_path, parent_of, starts_with_period, u64_to_dec};

#[test]
fn decimal_rendering_small() {
    assert_eq!(u64_to_dec(0), "0");
    assert_eq!(u64_to_dec(7), "7");
    assert_eq!(u64_to_dec(10), "10");
    assert_eq!(u64_to_dec(305), "305");
}

#[test]
fn decimal_rendering_large() {
    assert_eq!(u64_to_dec(1234567890), "1234567890");
    assert_eq!(u64_to_dec(u64::MAX), "18446744073709551615");
}

#[test]
fn hidden_names() {
    assert!(starts_with_period(&String::from(".DS_Store")));
    assert!(starts_with_period(&String::from(".")));
    assert!(!starts_with_period(&String::from("data")));
    assert!(!starts_with_period(&String::from("")));
}

#[test]
fn zarr_suffix_detection() {
    assert!(has_zarr_suffix(&String::from("cube.zarr")));
    assert!(has_zarr_suffix(&String::from("a.b.zarr")));
    assert!(!has_zarr_suffix(&String::from("cube.zar")));
    assert!(!has_zarr_suffix(&String::from("zarr")));
    assert!(!has_zarr_suffix(&String::from("")));
    assert!(has_zarr_suffix(&String::from(".zarr")));
}

#[test]
fn join_and_parent() {
    let joined = join_path(&String::from("/data"), &String::from("raw"));
    assert_eq!(joined, "/data/raw");
    assert_eq!(parent_of(&joined), Some(String::from("/data")));
    assert_eq!(parent_of(&String::from("/data")), Some(String::from("/")));
    assert_eq!(parent_of(&String::from("data")), None);
    assert_eq!(parent_of(&String::from("")), None);
}

#[test]
fn the_root_has_no_parent() {
    assert_eq!(parent_of(&String::from("/")), None);
}

#[test]
fn joining_adds_no_second_separator() {
    assert_eq!(join_path(&String::from("/"), &String::from("raw")), "/raw");
    assert_eq!(join_path(&String::from("/data/"), &String::from("raw")), "/data/raw");
    assert_eq!(join_path(&String::from(""), &String::from("raw")), "/raw");
}
