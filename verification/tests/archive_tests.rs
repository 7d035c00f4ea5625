use std::collections::HashMap;

use nightwatch_updater::addon::Addon;
use nightwatch_updater::archive::{
    classify_scratch, plan_placement, resolve_entry_path, validate_archive_header, ExtractError,
    PlaceError, PlaceStep, ScratchLayout,
};
use nightwatch_updater::listing::DirEntry;

fn addon(name: &str) -> Addon {
    Addon {
        name: name.to_string(),
        link: "http://example.com/foo.zip".to_string(),
        description: "d".to_string(),
        target_path: "AddOns".to_string(),
        is_zip: true,
    }
}

fn entry(name: &str, is_dir: bool) -> DirEntry {
    DirEntry { name: name.to_string(), is_dir }
}

#[test]
fn archive_header_validation() {
    let good = vec![0x50u8, 0x4b, 0x03, 0x04];
    assert!(validate_archive_header(10, &good).is_ok());
    assert_eq!(validate_archive_header(0, &good), Err(ExtractError::InvalidArchive));
    let bad = vec![0x50u8, 0x4b, 0x05, 0x06];
    assert_eq!(validate_archive_header(10, &bad), Err(ExtractError::InvalidArchive));
    let short = vec![0x50u8, 0x4b];
    assert_eq!(validate_archive_header(10, &short), Err(ExtractError::InvalidArchive));
}

#[test]
fn traversal_entries_are_rejected() {
    assert_eq!(resolve_entry_path("../../evil"), Err(ExtractError::PathTraversal));
    assert_eq!(resolve_entry_path("a/../b"), Err(ExtractError::PathTraversal));
    assert_eq!(resolve_entry_path("C:\\x"), Err(ExtractError::PathTraversal));
    assert_eq!(resolve_entry_path("/"), Err(ExtractError::PathTraversal));
}

#[test]
fn safe_entries_resolve_inside_the_scratch_root() {
    assert_eq!(
        resolve_entry_path("Foo/init.lua").unwrap(),
        vec!["Foo".to_string(), "init.lua".to_string()]
    );
    // A directory marker keeps its segments; the trailing separator is not a
    // segment.
    assert_eq!(resolve_entry_path("Foo/sub/").unwrap(), vec!["Foo".to_string(), "sub".to_string()]);
}

#[test]
fn classification_empty() {
    let layout = classify_scratch(&vec![]);
    assert!(matches!(layout, ScratchLayout::Empty));
    let artifacts_only = vec![entry("__MACOSX", true), entry(".hidden", false), entry("", false)];
    assert!(matches!(classify_scratch(&artifacts_only), ScratchLayout::Empty));
}

#[test]
fn classification_single_root_directory() {
    let layout = classify_scratch(&vec![entry("__MACOSX", true), entry("Foo", true)]);
    match layout {
        ScratchLayout::SingleRoot { root } => assert_eq!(root, "Foo"),
        _ => panic!("expected a single root"),
    }
}

#[test]
fn classification_single_file_is_multi_root() {
    let layout = classify_scratch(&vec![entry("readme.txt", false)]);
    match layout {
        ScratchLayout::MultiRoot { names } => assert_eq!(names, vec!["readme.txt".to_string()]),
        _ => panic!("expected multi root"),
    }
}

#[test]
fn classification_many_entries() {
    let layout = classify_scratch(&vec![entry("A", true), entry("B", false), entry("C", true)]);
    match layout {
        ScratchLayout::MultiRoot { names } => {
            assert_eq!(names, vec!["A".to_string(), "B".to_string(), "C".to_string()])
        },
        _ => panic!("expected multi root"),
    }
}

#[test]
fn placement_single_root_installs_under_the_addon_name() {
    let a = addon("Foo");
    let layout = ScratchLayout::SingleRoot { root: "Foo-1.2".to_string() };
    let plan = plan_placement(&layout, &a).unwrap();
    assert_eq!(plan.len(), 1);
    assert_eq!(plan[0].src_name, "Foo-1.2");
    assert_eq!(plan[0].dest_name, "Foo");
}

#[test]
fn placement_multi_root_keeps_each_name() {
    let a = addon("Foo");
    let layout = ScratchLayout::MultiRoot {
        names: vec!["FooCore".to_string(), "FooUI".to_string()],
    };
    let plan = plan_placement(&layout, &a).unwrap();
    assert_eq!(plan.len(), 2);
    assert_eq!(plan[0].src_name, "FooCore");
    assert_eq!(plan[0].dest_name, "FooCore");
    assert_eq!(plan[1].src_name, "FooUI");
    assert_eq!(plan[1].dest_name, "FooUI");
}

#[test]
fn placement_empty_is_an_error() {
    let a = addon("Foo");
    assert!(matches!(plan_placement(&ScratchLayout::Empty, &a), Err(PlaceError::EmptyArchive)));
}

/// Replays a placement plan against a model of the install base: each step
/// replaces the destination with the content of its scratch source.
fn apply(base: &mut HashMap<String, String>, plan: &[PlaceStep], content: &HashMap<String, String>) {
    for step in plan {
        base.remove(&step.dest_name);
        base.insert(step.dest_name.clone(), content[&step.src_name].clone());
    }
}

#[test]
fn installing_twice_equals_installing_once() {
    let a = addon("Foo");
    let layout = ScratchLayout::SingleRoot { root: "Foo-1.2".to_string() };
    let plan = plan_placement(&layout, &a).unwrap();
    let mut content = HashMap::new();
    content.insert("Foo-1.2".to_string(), "new files".to_string());

    let mut base = HashMap::new();
    base.insert("Foo".to_string(), "old files".to_string());
    base.insert("Bar".to_string(), "other addon".to_string());

    apply(&mut base, &plan, &content);
    let once = base.clone();
    apply(&mut base, &plan, &content);
    assert_eq!(base, once);
    assert_eq!(once["Foo"], "new files");
    assert_eq!(once["Bar"], "other addon");
}
