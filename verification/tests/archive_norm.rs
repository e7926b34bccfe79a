use itch_fetch::archive::{
    check_entry_name, extraction_plan, sanitize_title, staging_children, DirChild, MovePlan,
    ZipEntryMeta,
};

fn entry(name: &str, is_dir: bool) -> ZipEntryMeta {
    ZipEntryMeta { name: name.to_string(), is_dir }
}

#[test]
fn single_root_archive_is_unwrapped() {
    let entries = vec![entry("root/a.txt", false), entry("root/b/c.txt", false)];
    let children = staging_children(&entries);
    assert_eq!(children.len(), 1);
    assert_eq!(children[0].name, "root");
    assert!(children[0].is_dir);
    match extraction_plan(&children) {
        MovePlan::Unwrap { root } => assert_eq!(root, "root"),
        MovePlan::Keep => panic!("a lone root directory must be unwrapped"),
    }
}

#[test]
fn flat_archive_layout_is_kept() {
    let entries = vec![entry("x.txt", false), entry("y.txt", false)];
    let children = staging_children(&entries);
    assert_eq!(children.len(), 2);
    assert!(children.iter().all(|c| !c.is_dir));
    assert!(matches!(extraction_plan(&children), MovePlan::Keep));
}

#[test]
fn root_file_beside_root_directory_is_kept() {
    let entries = vec![entry("readme.txt", false), entry("data/level.bin", false)];
    let children = staging_children(&entries);
    assert_eq!(children.len(), 2);
    assert!(matches!(extraction_plan(&children), MovePlan::Keep));
}

#[test]
fn two_root_directories_are_kept() {
    let entries = vec![entry("a/x.txt", false), entry("b/y.txt", false)];
    let children = staging_children(&entries);
    assert_eq!(children.len(), 2);
    assert!(matches!(extraction_plan(&children), MovePlan::Keep));
}

#[test]
fn lone_empty_root_directory_is_unwrapped() {
    let entries = vec![entry("root/", true)];
    let children = staging_children(&entries);
    assert_eq!(children.len(), 1);
    assert!(children[0].is_dir);
    match extraction_plan(&children) {
        MovePlan::Unwrap { root } => assert_eq!(root, "root"),
        MovePlan::Keep => panic!("a lone empty root directory still triggers the unwrap"),
    }
}

#[test]
fn empty_archive_is_kept() {
    let entries: Vec<ZipEntryMeta> = vec![];
    let children = staging_children(&entries);
    assert!(children.is_empty());
    assert!(matches!(extraction_plan(&children), MovePlan::Keep));
}

#[test]
fn duplicate_roots_are_merged_into_one_child() {
    let entries = vec![
        entry("root/a.txt", false),
        entry("root/", true),
        entry("root/b.txt", false),
    ];
    let children = staging_children(&entries);
    assert_eq!(children.len(), 1);
    assert_eq!(children[0].name, "root");
    assert!(children[0].is_dir);
}

#[test]
fn traversal_guard_rejects_unsafe_paths() {
    assert!(!check_entry_name("../evil.txt", false));
    assert!(!check_entry_name("a/../evil.txt", false));
    assert!(!check_entry_name("/absolute.txt", false));
    assert!(!check_entry_name("a//b.txt", false));
    assert!(!check_entry_name("a\\b.txt", false));
    assert!(!check_entry_name("./x.txt", false));
    assert!(!check_entry_name("a/./x.txt", false));
    assert!(!check_entry_name("", false));
    assert!(!check_entry_name("a/..", false));
}

#[test]
fn traversal_guard_accepts_ordinary_paths() {
    assert!(check_entry_name("root/a.txt", false));
    assert!(check_entry_name("root/b/c.txt", false));
    assert!(check_entry_name("dir/", true));
    assert!(check_entry_name(".hidden", false));
    assert!(check_entry_name("..name", false));
    assert!(check_entry_name("a.b/c.d", false));
}

#[test]
fn trailing_separator_only_on_directory_entries() {
    assert!(check_entry_name("dir/", true));
    assert!(!check_entry_name("dir/", false));
}

#[test]
fn title_sanitization_replaces_path_separators() {
    assert_eq!(sanitize_title("My/Game\\2"), "My_Game_2");
    assert_eq!(sanitize_title("Plain Title"), "Plain Title");
    assert_eq!(sanitize_title(""), "");
}

#[test]
fn plan_on_mixed_kind_children() {
    let children = vec![
        DirChild { name: "only".to_string(), is_dir: false },
    ];
    assert!(matches!(extraction_plan(&children), MovePlan::Keep));
}
