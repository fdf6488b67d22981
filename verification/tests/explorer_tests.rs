use term_explorer::explorer::{
    format_size, get_file_icon, truncate_name, ExplorerPanel, FileEntry, SortBy, ViewMode,
};

fn entry(name: &str, is_dir: bool, size: u64, modified: Option<i64>) -> FileEntry {
    FileEntry {
        path: format!("/base/{}", name),
        name: String::from(name),
        is_dir,
        size,
        modified,
        icon: get_file_icon(name),
    }
}

#[test]
fn sizes_get_a_unit_and_one_decimal() {
    assert_eq!(format_size(0), "0.0 B");
    assert_eq!(format_size(1023), "1023.0 B");
    assert_eq!(format_size(1024), "1.0 KB");
    assert_eq!(format_size(1536), "1.5 KB");
    assert_eq!(format_size(10 * 1024 + 512), "10.5 KB");
    assert_eq!(format_size(1048575), "1023.9 KB");
    assert_eq!(format_size(1048576), "1.0 MB");
    assert_eq!(format_size(1073741824), "1.0 GB");
    assert_eq!(format_size(1099511627776), "1.0 TB");
}

#[test]
fn directories_show_no_size() {
    let dir = entry("docs", true, 0, None);
    assert_eq!(dir.format_size(), "--");
    let file = entry("a.txt", false, 2048, None);
    assert_eq!(file.format_size(), "2.0 KB");
}

#[test]
fn missing_timestamps_show_dashes() {
    let file = entry("a.txt", false, 1, None);
    assert_eq!(file.format_modified(), "--");
    let dated = entry("b.txt", false, 1, Some(0));
    let text = dated.format_modified();
    assert_ne!(text, "--");
    assert!(text.contains('-'));
}

#[test]
fn icons_follow_the_extension() {
    assert_eq!(get_file_icon("main.rs"), "🦀");
    assert_eq!(get_file_icon("script.PY"), "🐍");
    assert_eq!(get_file_icon("archive.tar.gz"), "🗜️");
    assert_eq!(get_file_icon("photo.JPeG"), "🖼️");
    assert_eq!(get_file_icon("notes.md"), "📝");
    assert_eq!(get_file_icon("run.sh"), "🐚");
    assert_eq!(get_file_icon("unknown.xyz"), "📄");
    assert_eq!(get_file_icon("noext"), "📄");
    // a name without a dot is matched whole, as the split leaves it
    assert_eq!(get_file_icon("rs"), "🦀");
    assert_eq!(get_file_icon("trailing."), "📄");
}

#[test]
fn long_names_are_shortened_for_the_grid() {
    assert_eq!(truncate_name("short.txt"), "short.txt");
    assert_eq!(truncate_name("a_very_long_file_name.txt"), "a_very_long_...");
    assert_eq!(truncate_name("exactly15chars!"), "exactly15chars!");
}

#[test]
fn name_order_puts_directories_first_and_folds_case() {
    let mut panel = ExplorerPanel::new(String::from("/base"));
    panel.set_entries(vec![
        entry("b.txt", false, 1, None),
        entry("zeta", true, 0, None),
        entry("A.txt", false, 2, None),
        entry("alpha", true, 0, None),
    ]);
    let names: Vec<&str> = panel.entries().iter().map(|e| e.name.as_str()).collect();
    assert_eq!(names, ["alpha", "zeta", "A.txt", "b.txt"]);
}

#[test]
fn size_order_sorts_by_bytes() {
    let mut panel = ExplorerPanel::new(String::from("/base"));
    panel.set_entries(vec![
        entry("big", false, 300, None),
        entry("small", false, 1, None),
        entry("mid", false, 20, None),
    ]);
    panel.set_sort_key(SortBy::Size);
    let names: Vec<&str> = panel.entries().iter().map(|e| e.name.as_str()).collect();
    assert_eq!(names, ["small", "mid", "big"]);
}

#[test]
fn modified_order_puts_undated_entries_first() {
    let mut panel = ExplorerPanel::new(String::from("/base"));
    panel.set_entries(vec![
        entry("new", false, 1, Some(2000)),
        entry("old", false, 1, Some(1000)),
        entry("undated", false, 1, None),
    ]);
    panel.set_sort_key(SortBy::Modified);
    let names: Vec<&str> = panel.entries().iter().map(|e| e.name.as_str()).collect();
    assert_eq!(names, ["undated", "old", "new"]);
}

#[test]
fn descending_reverses_the_listing() {
    let mut panel = ExplorerPanel::new(String::from("/base"));
    panel.set_entries(vec![
        entry("a", false, 1, None),
        entry("b", false, 2, None),
        entry("c", false, 3, None),
    ]);
    panel.set_sort_key(SortBy::Size);
    panel.toggle_sort_direction();
    assert!(panel.sort_descending());
    let names: Vec<&str> = panel.entries().iter().map(|e| e.name.as_str()).collect();
    assert_eq!(names, ["c", "b", "a"]);
    panel.toggle_sort_direction();
    let names: Vec<&str> = panel.entries().iter().map(|e| e.name.as_str()).collect();
    assert_eq!(names, ["a", "b", "c"]);
}

#[test]
fn navigation_resets_the_listing_until_refreshed() {
    let mut panel = ExplorerPanel::new(String::from("/base"));
    panel.set_entries(vec![entry("a", false, 1, None)]);
    assert_eq!(panel.item_count(), 1);
    panel.navigate_to(String::from("/elsewhere"));
    assert_eq!(panel.current_path().as_str(), "/elsewhere");
    assert_eq!(panel.item_count(), 0);
}

#[test]
fn clicking_selects_and_directories_queue_navigation() {
    let mut panel = ExplorerPanel::new(String::from("/base"));
    panel.set_entries(vec![entry("docs", true, 0, None), entry("a.txt", false, 1, None)]);
    // after name sorting the directory stands first
    panel.click_entry(1);
    assert_eq!(panel.selected_path().as_deref(), Some("/base/a.txt"));
    assert!(panel.check_navigation().is_none());
    panel.click_entry(0);
    assert_eq!(panel.selected_path().as_deref(), Some("/base/docs"));
    assert_eq!(panel.check_navigation().as_deref(), Some("/base/docs"));
    assert!(panel.check_navigation().is_none());
}

#[test]
fn view_mode_starts_with_icons() {
    let mut panel = ExplorerPanel::new(String::from("/base"));
    assert_eq!(panel.view_mode(), ViewMode::Icons);
    panel.set_view_mode(ViewMode::List);
    assert_eq!(panel.view_mode(), ViewMode::List);
    assert_eq!(panel.sort_by(), SortBy::Name);
}

#[test]
fn breadcrumbs_pair_each_component_with_its_prefix() {
    let crumbs = term_explorer::paths::breadcrumb_targets("/tmp/My Dir/sub");
    let crumbs: Vec<(&str, &str)> =
        crumbs.iter().map(|(n, t)| (n.as_str(), t.as_str())).collect();
    assert_eq!(
        crumbs,
        [("/", "/"), ("tmp", "/tmp"), ("My Dir", "/tmp/My Dir"), ("sub", "/tmp/My Dir/sub")]
    );
}

#[test]
fn breadcrumbs_of_relative_and_odd_paths() {
    let rel = term_explorer::paths::breadcrumb_targets("a/b");
    let rel: Vec<(&str, &str)> = rel.iter().map(|(n, t)| (n.as_str(), t.as_str())).collect();
    assert_eq!(rel, [("a", "a"), ("b", "a/b")]);

    let root = term_explorer::paths::breadcrumb_targets("/");
    let root: Vec<(&str, &str)> = root.iter().map(|(n, t)| (n.as_str(), t.as_str())).collect();
    assert_eq!(root, [("/", "/")]);

    assert_eq!(term_explorer::paths::breadcrumb_targets("").len(), 0);

    let doubled = term_explorer::paths::breadcrumb_targets("//a//");
    let doubled: Vec<(&str, &str)> =
        doubled.iter().map(|(n, t)| (n.as_str(), t.as_str())).collect();
    assert_eq!(doubled, [("/", "/"), ("a", "/a")]);
}
