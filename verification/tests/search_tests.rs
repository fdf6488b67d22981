use term_explorer::search::{
    find_match, highlight_split, line_matches_exec, search_file, split_content, SearchPanel,
};

#[test]
fn matching_honors_the_case_option() {
    assert!(line_matches_exec("Hello World", "world", false));
    assert!(!line_matches_exec("Hello World", "world", true));
    assert!(line_matches_exec("Hello World", "World", true));
    assert!(!line_matches_exec("Hello World", "planet", false));
}

#[test]
fn the_first_occurrence_is_found() {
    assert_eq!(find_match("abcabc", "bc", true), Some(1));
    assert_eq!(find_match("abcabc", "zz", true), None);
    assert_eq!(find_match("abc", "", true), Some(0));
    assert_eq!(find_match("aBCd", "bc", false), Some(1));
}

#[test]
fn content_splits_into_lines_like_a_file() {
    let lines = split_content("foo\r\nbar\n\nbaz\r");
    let lines: Vec<&str> = lines.iter().map(|l| l.as_str()).collect();
    assert_eq!(lines, ["foo", "bar", "", "baz\r"]);
    assert_eq!(split_content("").len(), 0);
    let single = split_content("a\n");
    assert_eq!(single.len(), 1);
    assert_eq!(single[0].as_str(), "a");
}

#[test]
fn hits_carry_their_line_numbers() {
    let content = "alpha\nbeta match\ngamma\nmatch again\n";
    let hits = search_file("/src/file.txt", content, "match", true, 100);
    assert_eq!(hits.len(), 2);
    assert_eq!(hits[0].line_number, 2);
    assert_eq!(hits[0].line_content.as_str(), "beta match");
    assert_eq!(hits[0].path.as_str(), "/src/file.txt");
    assert_eq!(hits[0].matched_text.as_str(), "match");
    assert_eq!(hits[1].line_number, 4);
    assert_eq!(hits[1].line_content.as_str(), "match again");
}

#[test]
fn the_hit_limit_caps_collection() {
    let content = "x\nx\nx\nx\nx\n";
    let hits = search_file("/f", content, "x", true, 3);
    assert_eq!(hits.len(), 3);
    assert_eq!(hits[2].line_number, 3);
    let all = search_file("/f", content, "x", true, 100);
    assert_eq!(all.len(), 5);
}

#[test]
fn case_folding_applies_to_file_hits() {
    let content = "Match Here\nnothing\n";
    let hits = search_file("/f", content, "mAtCh", false, 10);
    assert_eq!(hits.len(), 1);
    assert_eq!(hits[0].line_number, 1);
}

#[test]
fn highlight_splits_around_the_first_hit() {
    let parts = highlight_split("hello world", "WOR", false).unwrap();
    assert_eq!(parts.0.as_str(), "hello ");
    assert_eq!(parts.1.as_str(), "wor");
    assert_eq!(parts.2.as_str(), "ld");
    assert!(highlight_split("hello world", "xyz", false).is_none());
}

#[test]
fn a_new_panel_is_hidden_with_default_options() {
    let panel = SearchPanel::new();
    assert!(!panel.is_visible());
    assert_eq!(panel.query_text().as_str(), "");
    assert_eq!(panel.include_pattern().as_str(), "*");
    assert_eq!(panel.exclude_pattern().as_str(), ".git,node_modules,target");
    assert!(!panel.case_sensitive());
    assert!(!panel.search_in_progress());
}

#[test]
fn toggling_shows_and_hides_the_panel() {
    let mut panel = SearchPanel::new();
    panel.toggle();
    assert!(panel.is_visible());
    panel.toggle();
    assert!(!panel.is_visible());
}

#[test]
fn check_search_is_empty_when_nothing_was_requested() {
    let mut panel = SearchPanel::new();
    assert!(panel.check_search().is_none());
    panel.set_search_path(String::from("/somewhere"));
    assert!(panel.check_search().is_none());
}

#[test]
fn a_search_begins_only_with_a_query() {
    let mut panel = SearchPanel::new();
    assert!(!panel.begin_search());
    assert!(!panel.search_in_progress());
    panel.set_query(String::from("needle"));
    assert!(panel.begin_search());
    assert!(panel.search_in_progress());
    panel.finish_search();
    assert!(!panel.search_in_progress());
}

#[test]
fn options_can_be_adjusted() {
    let mut panel = SearchPanel::new();
    panel.set_case_sensitive(true);
    assert!(panel.case_sensitive());
    panel.set_include_pattern(String::from("*.rs"));
    assert_eq!(panel.include_pattern().as_str(), "*.rs");
    panel.set_exclude_pattern(String::from("target"));
    assert_eq!(panel.exclude_pattern().as_str(), "target");
}
