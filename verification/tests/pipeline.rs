use ug::DisplayMode;
use ug::FsEntry;
use ug::Pattern;
use ug::get_files;
use ug::get_things_you_should_ignore;
use ug::run_search;

fn file(name: &str, contents: &str) -> FsEntry {
    FsEntry::File {
        name: name.to_string(),
        contents: contents.to_string(),
    }
}

fn dir(name: &str, children: Vec<FsEntry>) -> FsEntry {
    FsEntry::Dir {
        name: name.to_string(),
        children,
    }
}

#[test]
fn please_goat() {
    let tree = vec![file("foo", "goat")];
    let ignores = get_things_you_should_ignore("", &Vec::new());
    let pattern = Pattern::new("goat").unwrap();
    let output = run_search(".", &tree, &ignores, &pattern, DisplayMode::Regular);
    assert_eq!(
        output,
        vec!["./foo".to_string(), "1:goat".to_string(), String::new()]
    );
}

#[test]
fn ignore_default_gitdir() {
    let tree = vec![dir(".git", vec![file("foo", "test")]), file("foo", "test")];
    let metadata_entries = vec![".git/foo".to_string()];
    let ignores = get_things_you_should_ignore("", &metadata_entries);
    let pattern = Pattern::new("test").unwrap();
    let output = run_search(".", &tree, &ignores, &pattern, DisplayMode::Regular);
    assert_eq!(
        output,
        vec!["./foo".to_string(), "1:test".to_string(), String::new()]
    );
}

#[test]
fn ignore_file_by_git_ignore() {
    let tree = vec![file("ignore_me", "test"), file("foo", "test")];
    let ignores = get_things_you_should_ignore("ignore_me", &Vec::new());
    let pattern = Pattern::new("test").unwrap();
    let output = run_search(".", &tree, &ignores, &pattern, DisplayMode::Regular);
    assert_eq!(
        output,
        vec!["./foo".to_string(), "1:test".to_string(), String::new()]
    );
}

#[test]
fn test_empty_dir() {
    let tree: Vec<FsEntry> = Vec::new();
    let ignores = get_things_you_should_ignore("", &Vec::new());
    let pattern = Pattern::new(".").unwrap();
    let output = run_search(".", &tree, &ignores, &pattern, DisplayMode::Regular);
    assert_eq!(output, Vec::<String>::new());
}

#[test]
fn list_only_mode_prints_each_file_once() {
    let tree = vec![file("test_file.txt", "a match here")];
    let ignores = get_things_you_should_ignore("", &Vec::new());
    let pattern = Pattern::new("match").unwrap();
    let output = run_search(".", &tree, &ignores, &pattern, DisplayMode::OnlyFiles);
    assert_eq!(output, vec!["./test_file.txt".to_string()]);
}

#[test]
fn count_mode_groups_counts_by_file() {
    let tree = vec![
        file("one.txt", "a match"),
        file("two.txt", "a match\nand another match"),
    ];
    let ignores = get_things_you_should_ignore("", &Vec::new());
    let pattern = Pattern::new("match").unwrap();
    let output = run_search(".", &tree, &ignores, &pattern, DisplayMode::CountMatches);
    assert_eq!(
        output,
        vec!["./one.txt:1".to_string(), "./two.txt:2".to_string()]
    );
}

#[test]
fn pipeline_is_idempotent_over_an_unchanged_tree() {
    let tree = vec![
        file("a", "goat\nboat\ngoat"),
        dir("sub", vec![file("b", "goat")]),
    ];
    let ignores = get_things_you_should_ignore("", &Vec::new());
    let pattern = Pattern::new("goat").unwrap();
    let first = run_search(".", &tree, &ignores, &pattern, DisplayMode::Regular);
    let second = run_search(".", &tree, &ignores, &pattern, DisplayMode::Regular);
    assert_eq!(first, second);
    assert!(!first.is_empty());
}

#[test]
fn walker_prunes_ignored_directories_before_descent() {
    let tree = vec![
        dir("sub", vec![file("inner", "goat")]),
        file("outer", "goat"),
    ];
    let ignores = get_things_you_should_ignore("sub", &Vec::new());
    let paths = get_files(".", &tree, &ignores);
    assert_eq!(paths, vec!["./outer".to_string()]);
}

#[test]
fn walker_keeps_tree_order_and_nests_paths() {
    let tree = vec![
        dir("sub", vec![file("a", ""), dir("deep", vec![file("b", "")])]),
        file("c", ""),
    ];
    let ignores = get_things_you_should_ignore("", &Vec::new());
    let paths = get_files(".", &tree, &ignores);
    assert_eq!(
        paths,
        vec![
            "./sub/a".to_string(),
            "./sub/deep/b".to_string(),
            "./c".to_string()
        ]
    );
}

#[test]
fn zero_match_files_never_reach_the_output() {
    let tree = vec![file("silent", "nothing here"), file("loud", "goat")];
    let ignores = get_things_you_should_ignore("", &Vec::new());
    let pattern = Pattern::new("goat").unwrap();
    for mode in [
        DisplayMode::OnlyFiles,
        DisplayMode::CountMatches,
        DisplayMode::Regular,
    ] {
        let output = run_search(".", &tree, &ignores, &pattern, mode);
        assert!(output.iter().all(|line| !line.contains("silent")));
    }
}
