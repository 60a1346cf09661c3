use devterm_core::fs::{
    depth_limit, display_name, file_limit, is_ignored_dir, parent_or_root, read_directory,
    read_directory_recursive, walks_into, DirectoryEntry, RecursiveDirectoryEntry, TreeListing,
    WalkItem, DEFAULT_MAX_DEPTH, DEFAULT_MAX_FILES, UNKNOWN_NAME,
};
use devterm_core::listing::{folded_less, sort_listing};
use std::cmp::Ordering;

fn entry(name: &str, is_dir: bool) -> DirectoryEntry {
    DirectoryEntry { name: name.to_string(), path: format!("/root/{}", name), is_dir }
}

fn tagged(name: &str, path: &str, is_dir: bool) -> DirectoryEntry {
    DirectoryEntry { name: name.to_string(), path: path.to_string(), is_dir }
}

fn names(entries: &[DirectoryEntry]) -> Vec<String> {
    entries.iter().map(|e| e.name.clone()).collect()
}

fn deep(name: &str, is_dir: bool, depth: usize) -> RecursiveDirectoryEntry {
    RecursiveDirectoryEntry {
        name: name.to_string(),
        path: format!("/root/{}", name),
        is_dir,
        depth,
        parent_path: "/root".to_string(),
    }
}

fn found(name: &str, is_dir: bool) -> WalkItem {
    WalkItem::Found { at_root: false, symlink: false, entry: deep(name, is_dir, 1) }
}

fn deep_names(entries: &[RecursiveDirectoryEntry]) -> Vec<String> {
    entries.iter().map(|e| e.name.clone()).collect()
}

/// The order that std's stable sort gives with the rule of the listing.
fn by_std(mut entries: Vec<DirectoryEntry>) -> Vec<DirectoryEntry> {
    entries.sort_by(|a, b| match (a.is_dir, b.is_dir) {
        (true, false) => Ordering::Less,
        (false, true) => Ordering::Greater,
        _ => a.name.to_lowercase().cmp(&b.name.to_lowercase()),
    });
    entries
}

#[test]
fn directories_come_first_then_names_without_case() {
    let sorted = read_directory(vec![
        entry("zeta.txt", false),
        entry("Alpha.txt", false),
        entry("src", true),
        entry("beta.txt", false),
        entry("Docs", true),
    ]);
    assert_eq!(names(&sorted), vec!["Docs", "src", "Alpha.txt", "beta.txt", "zeta.txt"]);
}

#[test]
fn empty_and_single_listings() {
    assert_eq!(read_directory(Vec::new()), Vec::new());
    assert_eq!(read_directory(vec![entry("a", false)]), vec![entry("a", false)]);
}

#[test]
fn entries_of_equal_rank_keep_their_order() {
    let sorted = read_directory(vec![
        tagged("README", "/1", false),
        tagged("readme", "/2", false),
        tagged("ReadMe", "/3", false),
        tagged("a", "/4", false),
        tagged("readme", "/5", false),
    ]);
    let paths: Vec<&str> = sorted.iter().map(|e| e.path.as_str()).collect();
    assert_eq!(paths, vec!["/4", "/1", "/2", "/3", "/5"]);
}

#[test]
fn prefix_sorts_before_longer_name() {
    let sorted = read_directory(vec![entry("abc", false), entry("ab", false), entry("a", false)]);
    assert_eq!(names(&sorted), vec!["a", "ab", "abc"]);
}

#[test]
fn names_are_ordered_by_the_bytes_of_their_lower_case() {
    let sorted = read_directory(vec![
        entry("\u{c9}cole", false),
        entry("zebra", false),
        entry("_x", false),
        entry("Zoo", false),
        entry("10", false),
        entry("9", false),
    ]);
    assert_eq!(names(&sorted), vec!["10", "9", "_x", "zebra", "Zoo", "\u{c9}cole"]);
}

#[test]
fn listing_agrees_with_the_stable_sort_of_std() {
    let mut input = Vec::new();
    let mut seed: u32 = 12345;
    for i in 0..300 {
        seed = seed.wrapping_mul(1664525).wrapping_add(1013904223);
        let letters = ["a", "B", "c", "D", "\u{e9}", "Z", "z", "_", "0"];
        let first = letters[(seed >> 8) as usize % letters.len()];
        let second = letters[(seed >> 16) as usize % letters.len()];
        let name = format!("{}{}", first, second);
        input.push(tagged(&name, &format!("/{}", i), (seed >> 24) % 3 == 0));
    }
    let mut copy = Vec::new();
    for e in &input {
        copy.push(tagged(&e.name, &e.path, e.is_dir));
    }
    assert_eq!(sort_listing(input), by_std(copy));
}

#[test]
fn limits_default_to_ten_levels_and_ten_thousand_files() {
    assert_eq!(DEFAULT_MAX_DEPTH, 10);
    assert_eq!(DEFAULT_MAX_FILES, 10000);
    assert_eq!(depth_limit(None), 10);
    assert_eq!(depth_limit(Some(3)), 3);
    assert_eq!(depth_limit(Some(0)), 0);
    assert_eq!(file_limit(None), 10000);
    assert_eq!(file_limit(Some(25)), 25);
}

#[test]
fn entry_without_a_name_is_shown_as_unknown() {
    assert_eq!(UNKNOWN_NAME, "Unknown");
    assert_eq!(display_name(None), "Unknown");
    assert_eq!(display_name(Some("notes.md".to_string())), "notes.md");
    assert_eq!(display_name(Some(String::new())), "");
}

#[test]
fn entry_without_a_parent_is_shown_under_the_root() {
    assert_eq!(parent_or_root(None, "/root"), "/root");
    assert_eq!(parent_or_root(Some("/root/src".to_string()), "/root"), "/root/src");
}

#[test]
fn the_eleven_ignored_directories() {
    for name in [
        ".git",
        "node_modules",
        "target",
        "dist",
        "build",
        ".cache",
        ".next",
        ".nuxt",
        "__pycache__",
        ".venv",
        "venv",
    ] {
        assert!(is_ignored_dir(name));
        assert!(!walks_into(true, Some(name)));
        assert!(walks_into(false, Some(name)));
    }
    for name in ["src", "Target", ".gitignore", "builds", "", "node_module", "venv "] {
        assert!(!is_ignored_dir(name));
        assert!(walks_into(true, Some(name)));
    }
    assert!(walks_into(true, None));
    assert!(walks_into(false, None));
}

#[test]
fn tree_listing_skips_root_links_and_unreadable_items() {
    let listed = read_directory_recursive(
        vec![
            WalkItem::Found { at_root: true, symlink: false, entry: deep("root", true, 0) },
            found("b.txt", false),
            WalkItem::Unreadable,
            WalkItem::Found { at_root: false, symlink: true, entry: deep("link", false, 1) },
            found("lib", true),
            WalkItem::Found { at_root: true, symlink: true, entry: deep("both", true, 0) },
            found("A.txt", false),
        ],
        None,
    );
    assert_eq!(deep_names(&listed), vec!["lib", "A.txt", "b.txt"]);
    assert_eq!(listed[0], deep("lib", true, 1));
}

#[test]
fn tree_listing_takes_the_first_entries_up_to_the_limit() {
    let items = || {
        vec![
            found("z", false),
            WalkItem::Unreadable,
            found("y", false),
            found("a", false),
            found("dir", true),
        ]
    };
    assert_eq!(deep_names(&read_directory_recursive(items(), Some(3))), vec!["a", "y", "z"]);
    assert_eq!(deep_names(&read_directory_recursive(items(), Some(4))), vec!["dir", "a", "y", "z"]);
    assert_eq!(deep_names(&read_directory_recursive(items(), Some(9))), vec!["dir", "a", "y", "z"]);
    assert_eq!(deep_names(&read_directory_recursive(items(), Some(1))), vec!["z"]);
    assert_eq!(read_directory_recursive(items(), Some(0)), Vec::new());
    assert_eq!(read_directory_recursive(Vec::new(), None), Vec::new());
}

#[test]
fn tree_listing_is_offered_items_one_by_one() {
    let mut listing = TreeListing::new(Some(2));
    assert!(!listing.is_full());
    listing.offer(WalkItem::Unreadable);
    listing.offer(found("b", false));
    assert!(!listing.is_full());
    listing.offer(found("a", false));
    assert!(listing.is_full());
    listing.offer(found("0", false));
    assert!(listing.is_full());
    assert_eq!(deep_names(&listing.finish()), vec!["a", "b"]);
}

#[test]
fn tree_listing_without_room_is_full_at_once() {
    let mut listing = TreeListing::new(Some(0));
    assert!(listing.is_full());
    listing.offer(found("a", false));
    assert_eq!(listing.finish(), Vec::new());
    assert!(!TreeListing::new(None).is_full());
}

#[test]
fn lower_cased_names_are_compared_after_the_kinds() {
    assert!(folded_less(true, "zeta", false, "alpha"));
    assert!(!folded_less(false, "alpha", true, "zeta"));
    assert!(folded_less(false, "alpha", false, "beta"));
    assert!(!folded_less(false, "beta", false, "alpha"));
    assert!(folded_less(true, "ab", true, "abc"));
    assert!(!folded_less(true, "abc", true, "ab"));
    assert!(!folded_less(true, "same", true, "same"));
    assert!(!folded_less(false, "same", false, "same"));
    assert!(folded_less(false, "z", false, "\u{e9}"));
    assert!(folded_less(false, "", false, "a"));
    assert!(folded_less(true, "", false, ""));
}
