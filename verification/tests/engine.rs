use fsearch::engine::FsEntry;
use fsearch::engine::Search;
use fsearch::matching::name_contains;

fn entry(path: &str, is_file: bool, name: Option<&str>) -> FsEntry {
    FsEntry {
        path: path.to_string(),
        is_file,
        name: name.map(|n| n.to_string()),
    }
}

fn drain(search: &mut Search) -> Vec<String> {
    let mut out = Vec::new();
    while let Some(item) = search.next() {
        out.push(item);
    }
    out
}

#[test]
fn substring_matching_basics() {
    assert!(name_contains("a.txt", "a"));
    assert!(name_contains("abc.log", "abc.log"));
    assert!(name_contains("file_a.bin", "_a."));
    assert!(!name_contains("notes.md", "xyz"));
    assert!(!name_contains("short", "much longer than the name"));
    assert!(!name_contains("", "a"));
}

#[test]
fn empty_pattern_matches_everything() {
    assert!(name_contains("anything", ""));
    assert!(name_contains("", ""));
}

#[test]
fn matching_counts_characters_not_bytes() {
    assert!(name_contains("r\u{e9}sum\u{e9}.doc", "\u{e9}sum"));
    assert!(!name_contains("r\u{e9}sum\u{e9}.doc", "\u{e8}"));
    assert!(name_contains("caf\u{e9}", "\u{e9}"));
}

#[test]
fn matching_at_the_edges_of_the_name() {
    assert!(name_contains("prefix_rest", "prefix"));
    assert!(name_contains("rest_suffix", "suffix"));
    assert!(name_contains("exact", "exact"));
    assert!(!name_contains("exact", "exact_and_more"));
}

#[test]
fn matching_is_case_sensitive() {
    assert!(!name_contains("README", "readme"));
    assert!(name_contains("README", "EADM"));
}

#[test]
fn tree_with_three_files_and_a_directory() {
    let mut search = Search::new(Some("a"), false);
    search.visit_entry(entry("/root/a.txt", true, Some("a.txt")));
    search.visit_entry(entry("/root/abc.log", true, Some("abc.log")));
    search.visit_entry(entry("/root/sub", false, Some("sub")));
    search.visit_entry(entry("/root/sub/file_a.bin", true, Some("file_a.bin")));

    let results = drain(&mut search);
    assert_eq!(search.num_files_processed, 4);
    assert_eq!(search.num_results, 3);
    assert_eq!(results.len(), 3);
    assert!(results.contains(&"/root/a.txt".to_string()));
    assert!(results.contains(&"/root/abc.log".to_string()));
    assert!(results.contains(&"/root/sub/file_a.bin".to_string()));
}

#[test]
fn single_file_no_match() {
    let mut search = Search::new(Some("xyz"), false);
    search.visit_entry(entry("/root/notes.md", true, Some("notes.md")));

    let results = drain(&mut search);
    assert!(results.is_empty());
    assert_eq!(search.num_results, 0);
    assert_eq!(search.num_files_processed, 1);
}

#[test]
fn empty_pattern_lists_every_regular_file_once() {
    let mut search = Search::new(Some(""), false);
    search.visit_entry(entry("/r/one", true, Some("one")));
    search.visit_entry(entry("/r/dir", false, Some("dir")));
    search.visit_entry(entry("/r/two", true, Some("two")));

    let results = drain(&mut search);
    assert_eq!(results, vec!["/r/one".to_string(), "/r/two".to_string()]);
    assert_eq!(results.iter().filter(|p| p.as_str() == "/r/one").count(), 1);
    assert_eq!(search.num_results, 2);
}

#[test]
fn no_pattern_behaves_like_empty_pattern() {
    let mut search = Search::new(None, false);
    search.visit_entry(entry("/r/one", true, Some("one")));
    search.visit_entry(entry("/r/dir", false, Some("dir")));

    let results = drain(&mut search);
    assert_eq!(results, vec!["/r/one".to_string()]);
}

#[test]
fn directories_are_counted_but_never_match() {
    let mut search = Search::new(Some("dir"), false);
    search.visit_entry(entry("/r/dir", false, Some("dir")));
    search.visit_entry(entry("/r/dir2", false, Some("dir2")));

    assert!(drain(&mut search).is_empty());
    assert_eq!(search.num_files_processed, 2);
    assert_eq!(search.num_results, 0);
}

#[test]
fn nameless_entries_are_counted_but_never_match() {
    let mut search = Search::new(Some(""), false);
    search.visit_entry(entry("/", true, None));

    assert!(drain(&mut search).is_empty());
    assert_eq!(search.num_files_processed, 1);
}

#[test]
fn run_entries_processes_a_whole_batch() {
    let batch = vec![
        entry("/r/a.txt", true, Some("a.txt")),
        entry("/r/sub", false, Some("sub")),
        entry("/r/b.txt", true, Some("b.txt")),
    ];
    let mut search = Search::new(Some(".txt"), false);
    search.run_entries(&batch);

    let results = drain(&mut search);
    assert_eq!(results, vec!["/r/a.txt".to_string(), "/r/b.txt".to_string()]);
    assert_eq!(search.num_files_processed, 3);
    assert_eq!(search.num_results, 2);
}

#[test]
fn counters_are_stable_after_drain() {
    let mut search = Search::new(Some("a"), false);
    search.visit_entry(entry("/r/a", true, Some("a")));
    let _ = drain(&mut search);
    let processed_then = search.num_files_processed;
    let matched_then = search.num_results;
    assert!(search.next().is_none());
    assert!(search.next().is_none());
    assert_eq!(search.num_files_processed, processed_then);
    assert_eq!(search.num_results, matched_then);
}

#[test]
fn match_count_equals_drained_results() {
    let mut search = Search::new(Some("a"), false);
    search.visit_entry(entry("/r/a1", true, Some("a1")));
    search.visit_entry(entry("/r/b", true, Some("b")));
    search.visit_entry(entry("/r/a2", true, Some("a2")));

    let results = drain(&mut search);
    assert_eq!(search.num_results, results.len());
}

#[test]
fn rerun_in_another_order_yields_the_same_result_set() {
    let forward = vec![
        entry("/r/a.txt", true, Some("a.txt")),
        entry("/r/sub", false, Some("sub")),
        entry("/r/abc.log", true, Some("abc.log")),
    ];
    let backward: Vec<FsEntry> = vec![
        entry("/r/abc.log", true, Some("abc.log")),
        entry("/r/a.txt", true, Some("a.txt")),
        entry("/r/sub", false, Some("sub")),
    ];

    let mut first = Search::new(Some("a"), false);
    first.run_entries(&forward);
    let mut second = Search::new(Some("a"), false);
    second.run_entries(&backward);

    let mut first_results = drain(&mut first);
    let mut second_results = drain(&mut second);
    first_results.sort();
    second_results.sort();
    assert_eq!(first_results, second_results);
}
