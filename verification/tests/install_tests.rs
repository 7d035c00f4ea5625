use nightwatch_updater::addon::Addon;
use nightwatch_updater::install::{
    check_addon_installed, check_addon_installed_exact, entry_is_exactly, entry_matches,
    is_installed, uninstall_addon, uninstall_outcome,
};
use nightwatch_updater::listing::DirEntry;

fn addon(name: &str) -> Addon {
    Addon {
        name: name.to_string(),
        link: "http://example.com/foo.zip".to_string(),
        description: "d".to_string(),
        target_path: "AddOns".to_string(),
        is_zip: true,
    }
}

fn entries(names: &[&str]) -> Vec<String> {
    names.iter().map(|s| s.to_string()).collect()
}

#[test]
fn exact_entry_counts_as_installed() {
    let a = addon("Foo");
    assert!(check_addon_installed(&a, &entries(&["Bar", "Foo"])));
    assert!(check_addon_installed_exact(&a, &entries(&["Bar", "Foo"])));
}

#[test]
fn prefixed_and_containing_entries_count_heuristically() {
    let a = addon("Foo");
    assert!(check_addon_installed(&a, &entries(&["Foo-v2"])));
    assert!(check_addon_installed(&a, &entries(&["SuperFooPack"])));
    assert!(!check_addon_installed_exact(&a, &entries(&["Foo-v2"])));
    assert!(!check_addon_installed_exact(&a, &entries(&["SuperFooPack"])));
}

#[test]
fn empty_listing_reads_as_not_installed() {
    let a = addon("Foo");
    assert!(!check_addon_installed(&a, &entries(&[])));
    assert!(!check_addon_installed_exact(&a, &entries(&[])));
}

#[test]
fn unrelated_entries_do_not_count() {
    let a = addon("Foo");
    assert!(!check_addon_installed(&a, &entries(&["Bar", "Baz"])));
}

#[test]
fn entry_match_helpers() {
    assert!(entry_matches("Foo", "Foo"));
    assert!(entry_matches("FooBar", "Foo"));
    assert!(entry_matches("MyFoo", "Foo"));
    assert!(!entry_matches("Bar", "Foo"));
    assert!(entry_is_exactly("Foo", "Foo"));
    assert!(!entry_is_exactly("FooBar", "Foo"));
}

#[test]
fn uninstall_plans_every_matching_entry() {
    let a = addon("Foo");
    let plan = uninstall_addon(&a, &entries(&["Foo", "Foo-old", "Bar", "MyFooPack"]));
    assert_eq!(plan, vec!["Foo".to_string(), "Foo-old".to_string(), "MyFooPack".to_string()]);
}

#[test]
fn uninstall_then_not_installed_round_trip() {
    let a = addon("Foo");
    let before = entries(&["Foo", "Foo-old", "Bar"]);
    let plan = uninstall_addon(&a, &before);
    let after: Vec<String> = before.iter().filter(|e| !plan.contains(e)).cloned().collect();
    assert_eq!(after, vec!["Bar".to_string()]);
    assert!(!check_addon_installed(&a, &after));
}

#[test]
fn install_then_installed_round_trip() {
    let a = addon("Foo");
    // Placement of a single-root archive creates the entry named after the
    // add-on itself.
    let after_install = entries(&["Bar", "Foo"]);
    assert!(check_addon_installed(&a, &after_install));
}

fn typed(names: &[(&str, bool)]) -> Vec<DirEntry> {
    names.iter().map(|(n, d)| DirEntry { name: n.to_string(), is_dir: *d }).collect()
}

#[test]
fn typed_check_wants_a_directory_for_archives() {
    let a = addon("Foo");
    assert!(is_installed(&a, &typed(&[("Foo", true)])));
    // A plain file named Foo is not the archive's directory, but the loose
    // fallback still claims it for archive add-ons.
    assert!(is_installed(&a, &typed(&[("Foo", false)])));
    assert!(!is_installed(&a, &typed(&[("Bar", true)])));
    // The fallback also accepts stray siblings.
    assert!(is_installed(&a, &typed(&[("FooPack", false)])));
}

#[test]
fn typed_check_wants_a_file_for_single_file_addons() {
    let mut a = addon("notes.txt");
    a.is_zip = false;
    assert!(is_installed(&a, &typed(&[("notes.txt", false)])));
    // A directory of that name is not the installed file, and single-file
    // add-ons get no loose fallback.
    assert!(!is_installed(&a, &typed(&[("notes.txt", true)])));
    assert!(!is_installed(&a, &typed(&[("my-notes.txt-backup", false)])));
}

#[test]
fn uninstall_outcome_requires_both_facts() {
    assert!(uninstall_outcome(true, false));
    assert!(!uninstall_outcome(true, true));
    assert!(!uninstall_outcome(false, false));
    assert!(!uninstall_outcome(false, true));
}
