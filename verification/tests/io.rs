use getopts::Options;

use ug::display_output;
use ug::get_opts;

fn parse(args: &[String]) -> (Vec<String>, bool, bool) {
    let mut opts = Options::new();
    opts.optflag("l", "list-files", "List only files that contain the pattern");
    opts.optflag("c", "count", "Only print the number of matches in each file");
    let matches = opts.parse(&args[1..]).unwrap();
    (
        matches.free.clone(),
        matches.opt_present("l"),
        matches.opt_present("c"),
    )
}

#[test]
fn test_file_only_printer() {
    let p = "test_file.txt".to_string();
    let m = vec![(1, "a match".to_string())];
    let args = vec!["self".to_string(), "beh".to_string(), "-l".to_string()];
    let (free, list_files, count_matches) = parse(&args);
    let (_, _, mode) = match get_opts(&free, list_files, count_matches) {
        Ok(t) => t,
        Err(_) => panic!("at the disco"),
    };

    let file_result = vec![(p, m)];
    let output = display_output(file_result, mode);
    assert_eq!(vec![format!("test_file.txt")], output);
}

#[test]
fn test_only_file_printer() {
    let p = "test_file.txt".to_string();
    let m = vec![(1, "a match".to_string())];
    let args = vec!["self".to_string(), "beh".to_string(), "-l".to_string()];
    let (free, list_files, count_matches) = parse(&args);
    let (_, _, mode) = match get_opts(&free, list_files, count_matches) {
        Ok(t) => t,
        Err(_) => panic!("at the disco"),
    };

    let file_result = vec![(p, m)];
    let output = display_output(file_result, mode);
    assert_eq!(1, output.len());
    assert_eq!("test_file.txt".to_string(), output[0]);
}

#[test]
fn lib_test_regular_search_display() {
    let p = "test_file.txt".to_string();
    let m = vec![(1, "a match".to_string())];
    let args = vec!["self".to_string(), "beh".to_string()];
    let (free, list_files, count_matches) = parse(&args);
    let (_, _, mode) = match get_opts(&free, list_files, count_matches) {
        Ok(t) => t,
        Err(_) => panic!("at the disco"),
    };

    let file_result = vec![(p, m)];
    let output = display_output(file_result, mode);
    assert_eq!(3, output.len());
    assert_eq!("test_file.txt".to_string(), output[0]);
    assert_eq!("1:a match".to_string(), output[1]);
}

#[test]
fn test_match_counter() {
    let p1 = "test_file.txt".to_string();
    let m1 = vec![(1, "a match".to_string())];

    let p2 = "second_file.txt".to_string();
    let m2 = vec![(1, "a match".to_string()), (2, "and another".to_string())];

    let args = vec!["self".to_string(), "beh".to_string(), "-c".to_string()];

    let (free, list_files, count_matches) = parse(&args);
    let (_, _, mode) = match get_opts(&free, list_files, count_matches) {
        Ok(t) => t,
        Err(_) => panic!("should never happen"),
    };

    let file_result = vec![(p1, m1), (p2, m2)];
    let output = display_output(file_result, mode);
    assert_eq!(
        vec![format!("test_file.txt:1"), format!("second_file.txt:2")],
        output
    );
}

#[test]
fn files_without_matches_are_skipped_in_every_mode() {
    let with = ("has.txt".to_string(), vec![(1, "hit".to_string())]);
    let without = ("empty.txt".to_string(), Vec::new());

    let modes = [
        ug::DisplayMode::OnlyFiles,
        ug::DisplayMode::CountMatches,
        ug::DisplayMode::Regular,
    ];
    for mode in modes {
        let output = display_output(vec![without.clone(), with.clone()], mode);
        assert!(output.iter().all(|line| !line.contains("empty.txt")));
        assert!(output.iter().any(|line| line.contains("has.txt")));
    }
}

#[test]
fn count_mode_reports_match_list_length() {
    let results = vec![
        ("a.txt".to_string(), vec![(3, "x".to_string()), (9, "y".to_string())]),
        ("b.txt".to_string(), Vec::new()),
        (
            "c.txt".to_string(),
            vec![
                (1, "x".to_string()),
                (2, "y".to_string()),
                (5, "z".to_string()),
            ],
        ),
    ];
    let lengths: Vec<usize> = results
        .iter()
        .filter(|r| !r.1.is_empty())
        .map(|r| r.1.len())
        .collect();
    let output = display_output(results, ug::DisplayMode::CountMatches);
    assert_eq!(output, vec!["a.txt:2".to_string(), "c.txt:3".to_string()]);
    assert_eq!(lengths, vec![2, 3]);
}

#[test]
fn get_opts_rejects_missing_and_extra_arguments() {
    let none: Vec<String> = vec![];
    assert_eq!(
        get_opts(&none, false, false),
        Err("not enough args".to_string())
    );

    let three = vec!["a".to_string(), "b".to_string(), "c".to_string()];
    assert_eq!(
        get_opts(&three, false, false),
        Err("too many args".to_string())
    );
}

#[test]
fn get_opts_defaults_path_and_mode() {
    let one = vec!["pat".to_string()];
    let (pattern, path, mode) = get_opts(&one, false, false).unwrap();
    assert_eq!(pattern, "pat");
    assert_eq!(path, ".");
    assert_eq!(mode, ug::DisplayMode::Regular);

    let two = vec!["pat".to_string(), "some/dir".to_string()];
    let (pattern, path, mode) = get_opts(&two, false, true).unwrap();
    assert_eq!(pattern, "pat");
    assert_eq!(path, "some/dir");
    assert_eq!(mode, ug::DisplayMode::CountMatches);

    let (_, _, mode) = get_opts(&one, true, true).unwrap();
    assert_eq!(mode, ug::DisplayMode::OnlyFiles);
}
