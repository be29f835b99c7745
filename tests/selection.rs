use repo_digest::{get_filtered_files, is_hidden, SelectError};

fn listing(paths: &[&str]) -> Vec<String> {
    paths.iter().map(|p| p.to_string()).collect()
}

fn sorted(mut v: Vec<String>) -> Vec<String> {
    v.sort();
    v
}

#[test]
fn test_include_pattern() {
    let files = listing(&["file1.txt", "subdir/file2.txt", "subdir/file2.log"]);
    let filtered_files =
        get_filtered_files(&files, Some("**/*.txt".to_string()), None, false).unwrap();
    assert_eq!(filtered_files.len(), 2);
    assert!(filtered_files.contains(&"file1.txt".to_string()));
    assert!(filtered_files.contains(&"subdir/file2.txt".to_string()));
}

#[test]
fn test_include_pattern_subdir_txt_files() {
    let files = listing(&[
        "file1.txt",
        "file1.log",
        "subdir/file2.txt",
        "subdir/file3.log",
        "subdir/file4.txt",
    ]);
    let filtered_files =
        get_filtered_files(&files, Some("subdir/*.txt".to_string()), None, false).unwrap();
    assert_eq!(filtered_files.len(), 2, "Should include exactly two txt files from subdir.");
    assert!(filtered_files.contains(&"subdir/file2.txt".to_string()), "Should include file2.txt");
    assert!(filtered_files.contains(&"subdir/file4.txt".to_string()), "Should include file4.txt");
}

#[test]
fn test_exclude_pattern() {
    let files = listing(&["file1.txt", "file2.log", "file3.txt"]);
    let filtered_files =
        get_filtered_files(&files, None, Some("**/*.log".to_string()), false).unwrap();
    assert_eq!(filtered_files.len(), 2);
    assert!(filtered_files.contains(&"file1.txt".to_string()));
    assert!(filtered_files.contains(&"file3.txt".to_string()));
}

#[test]
fn test_include_and_exclude_pattern() {
    let files = listing(&["file1.txt", "subdir/file2.txt", "subdir/file2.log"]);
    let filtered_files = get_filtered_files(
        &files,
        Some("**/*.txt".to_string()),
        Some("subdir/**/*".to_string()),
        false,
    )
    .unwrap();
    assert_eq!(filtered_files.len(), 1);
    assert!(filtered_files.contains(&"file1.txt".to_string()));
}

#[test]
fn test_exclude_hidden_files() {
    let files = listing(&["visible.txt", ".hidden.txt", "another_visible.txt"]);
    let filtered_files = get_filtered_files(&files, Some("**/*".to_string()), None, false).unwrap();
    assert_eq!(
        filtered_files.len(),
        2,
        "Should only include visible files, excluding the hidden file."
    );
    assert!(filtered_files.contains(&"visible.txt".to_string()), "Should include visible.txt");
    assert!(
        filtered_files.contains(&"another_visible.txt".to_string()),
        "Should include another_visible.txt"
    );
    assert!(
        !filtered_files.contains(&".hidden.txt".to_string()),
        "Should not include .hidden.txt"
    );
}

#[test]
fn test_include_hidden_files() {
    let files = listing(&["visible.txt", ".hidden.txt", "another_visible.txt"]);
    let filtered_files = get_filtered_files(&files, Some("**/*".to_string()), None, true).unwrap();
    assert_eq!(filtered_files.len(), 3, "Should include all files, including the hidden file.");
    assert!(filtered_files.contains(&"visible.txt".to_string()), "Should include visible.txt");
    assert!(filtered_files.contains(&".hidden.txt".to_string()), "Should include .hidden.txt");
    assert!(
        filtered_files.contains(&"another_visible.txt".to_string()),
        "Should include another_visible.txt"
    );
}

#[test]
fn scenario_selection_three_ways() {
    let files = listing(&["file1.txt", "sub/file2.txt", "sub/file2.log", ".hidden.txt"]);
    let txt = get_filtered_files(&files, Some("**/*.txt".to_string()), None, false).unwrap();
    assert_eq!(sorted(txt), listing(&["file1.txt", "sub/file2.txt"]));
    let outside_sub =
        get_filtered_files(&files, Some("**/*".to_string()), Some("sub/**/*".to_string()), false)
            .unwrap();
    assert_eq!(outside_sub, listing(&["file1.txt"]));
    let all = get_filtered_files(&files, Some("**/*".to_string()), None, true).unwrap();
    assert_eq!(
        sorted(all),
        listing(&[".hidden.txt", "file1.txt", "sub/file2.log", "sub/file2.txt"])
    );
}

#[test]
fn hidden_directory_hides_its_files() {
    let files = listing(&["a/.b/c.txt", "a/b/c.txt"]);
    let without = get_filtered_files(&files, None, None, false).unwrap();
    assert_eq!(without, listing(&["a/b/c.txt"]));
    let with = get_filtered_files(&files, None, None, true).unwrap();
    assert_eq!(with, listing(&["a/.b/c.txt", "a/b/c.txt"]));
}

#[test]
fn default_inclusion_takes_every_file() {
    let files = listing(&["x.rs", "deep/er/y.md", ".env", "d/.git/config"]);
    let visible = get_filtered_files(&files, None, None, false).unwrap();
    assert_eq!(visible, listing(&["x.rs", "deep/er/y.md"]));
    let all = get_filtered_files(&files, None, None, true).unwrap();
    assert_eq!(all, files);
}

#[test]
fn selection_twice_gives_the_same_set() {
    let files = listing(&["b.txt", "a.txt", "c/d.log", "c/e.txt"]);
    let first = get_filtered_files(&files, Some("**/*.txt".to_string()), None, false).unwrap();
    let second = get_filtered_files(&files, Some("**/*.txt".to_string()), None, false).unwrap();
    assert_eq!(sorted(first.clone()), sorted(second));
    let mut reversed = files.clone();
    reversed.reverse();
    let third = get_filtered_files(&reversed, Some("**/*.txt".to_string()), None, false).unwrap();
    assert_eq!(sorted(first.clone()), sorted(third));
    let again = get_filtered_files(&first, Some("**/*.txt".to_string()), None, false).unwrap();
    assert_eq!(sorted(first), sorted(again));
}

#[test]
fn pattern_matching_nothing_selects_nothing() {
    let files = listing(&["a.txt", "b/c.txt"]);
    let none = get_filtered_files(&files, Some("**/*.zip".to_string()), None, false).unwrap();
    assert!(none.is_empty());
    let empty_tree = get_filtered_files(&Vec::new(), None, None, false).unwrap();
    assert!(empty_tree.is_empty());
}

#[test]
fn single_star_stays_within_a_segment() {
    let files = listing(&["top.txt", "sub/low.txt"]);
    let top = get_filtered_files(&files, Some("*.txt".to_string()), None, false).unwrap();
    assert_eq!(top, listing(&["top.txt"]));
    let question = get_filtered_files(&files, Some("su?/*".to_string()), None, false).unwrap();
    assert_eq!(question, listing(&["sub/low.txt"]));
}

#[test]
fn duplicate_listing_selected_once() {
    let files = listing(&["a.txt", "a.txt", "b.txt"]);
    let selected = get_filtered_files(&files, None, None, false).unwrap();
    assert_eq!(selected, listing(&["a.txt", "b.txt"]));
}

#[test]
fn exclusion_matching_nothing_changes_nothing() {
    let files = listing(&["a.txt", "b.log"]);
    let selected =
        get_filtered_files(&files, None, Some("**/*.zip".to_string()), false).unwrap();
    assert_eq!(selected, files);
}

#[test]
fn invalid_inclusion_pattern_is_refused() {
    let files = listing(&["a.txt"]);
    let r = get_filtered_files(&files, Some("a**".to_string()), Some("[".to_string()), false);
    assert_eq!(r, Err(SelectError::InvalidInclude("a**".to_string())));
}

#[test]
fn invalid_exclusion_pattern_is_refused() {
    let files = listing(&["a.txt"]);
    let r = get_filtered_files(&files, Some("**/*".to_string()), Some("[abc".to_string()), false);
    assert_eq!(r, Err(SelectError::InvalidExclude("[abc".to_string())));
}

#[test]
fn hidden_detection_looks_at_every_segment() {
    assert!(is_hidden(".hidden.txt"));
    assert!(is_hidden("a/.b/c.txt"));
    assert!(is_hidden("a/b/.c"));
    assert!(!is_hidden("a/b.c/d.txt"));
    assert!(!is_hidden("visible.txt"));
    assert!(!is_hidden(""));
}
