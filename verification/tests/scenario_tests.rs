use std::collections::HashMap;

use nightwatch_updater::archive::{
    classify_scratch, plan_placement, resolve_entry_path, validate_archive_header, ScratchLayout,
};
use nightwatch_updater::listing::DirEntry;
use nightwatch_updater::download::DownloadProgress;
use nightwatch_updater::install::{check_addon_installed, uninstall_addon};
use nightwatch_updater::manifest::parse_addons_config;
use nightwatch_updater::state::AddonState;

/// The full install/uninstall story for one archive add-on, at the level of
/// the decisions the engine makes: the manifest lists `Foo`, `foo.zip`
/// contains a single folder `Foo/` with `Foo/init.lua`; after install the
/// target directory holds `Foo` (with `init.lua` inside) and the inspector
/// says installed; after uninstall `Foo` is gone and it says not installed.
#[test]
fn install_and_uninstall_one_addon() {
    let manifest = r#"{"addons":{"Foo":{"link":"https://example.com/foo.zip","description":"a foo","target_path":"AddOns"}}}"#;
    let addons = parse_addons_config(manifest).expect("manifest parses");
    assert_eq!(addons.len(), 1);
    let foo = &addons[0];
    assert!(foo.is_zip);

    // Nothing installed yet.
    let target_listing: Vec<String> = Vec::new();
    assert!(!check_addon_installed(foo, &target_listing));

    // The worker claims the add-on and aims at "installed".
    let mut state = AddonState::initial(false, false);
    assert!(state.try_begin(false));

    // The downloaded file passes the integrity and signature gates.
    let mut progress = DownloadProgress::new(Some(4));
    progress.record_chunk(4);
    assert!(progress.check_download_integrity().is_ok());
    let header = vec![0x50u8, 0x4b, 0x03, 0x04];
    assert!(validate_archive_header(4, &header).is_ok());

    // The archive's entries resolve safely inside the scratch directory.
    assert_eq!(resolve_entry_path("Foo/").unwrap(), vec!["Foo".to_string()]);
    assert_eq!(
        resolve_entry_path("Foo/init.lua").unwrap(),
        vec!["Foo".to_string(), "init.lua".to_string()]
    );

    // The scratch directory holds one wrapping folder: its contents become
    // the add-on folder.
    let scratch = vec![DirEntry { name: "Foo".to_string(), is_dir: true }];
    let layout = classify_scratch(&scratch);
    assert!(matches!(layout, ScratchLayout::SingleRoot { .. }));
    let plan = plan_placement(&layout, foo).expect("placement plan");
    assert_eq!(plan.len(), 1);
    assert_eq!(plan[0].dest_name, "Foo");

    // Apply the plan to a model of AddOns/: Foo appears with the folder's
    // contents, not nested one level deeper.
    let mut contents: HashMap<String, Vec<String>> = HashMap::new();
    contents.insert("Foo".to_string(), vec!["init.lua".to_string()]);
    let mut base: HashMap<String, Vec<String>> = HashMap::new();
    for step in &plan {
        base.remove(&step.dest_name);
        base.insert(step.dest_name.clone(), contents[&step.src_name].clone());
    }
    assert_eq!(base["Foo"], vec!["init.lua".to_string()]);

    // The worker finishes; the inspector now sees the add-on.
    let listing: Vec<String> = base.keys().cloned().collect();
    assert!(check_addon_installed(foo, &listing));
    state.finish(true);
    assert!(!state.installing);
    assert_eq!(state.target_state, Some(true));

    // Uninstall plans the removal of Foo; afterwards nothing matches.
    let removals = uninstall_addon(foo, &listing);
    assert_eq!(removals, vec!["Foo".to_string()]);
    for name in &removals {
        base.remove(name);
    }
    let listing_after: Vec<String> = base.keys().cloned().collect();
    assert!(listing_after.is_empty());
    assert!(!check_addon_installed(foo, &listing_after));
}

/// A declared length of 1000 with only 500 bytes delivered is rejected
/// before anything reaches the target directory.
#[test]
fn corrupt_download_never_reaches_placement() {
    let mut progress = DownloadProgress::new(Some(1000));
    progress.record_chunk(500);
    let gate = progress.check_download_integrity();
    assert!(gate.is_err());
}
