use ug::Pattern;
use ug::matching_lines;

#[test]
fn the_matchline_finds_something_and_gives_line_number() {
    let file_to_search: String = "first line
            second line
            something
            nothing
            also nothing great"
        .to_string();
    let to_find = Pattern::new("something").unwrap();
    let results: Vec<(usize, String)> = matching_lines(&file_to_search, &to_find);
    assert_eq!(results.len(), 1);

    assert_eq!(results[0], (3, "            something".to_string()));
}

#[test]
fn matching_lines_two_things() {
    let file_to_search: String = "first line
            second line
            thing one
            thing two
            junk line"
        .to_string();
    let to_find = Pattern::new("thing").unwrap();
    let results: Vec<(usize, String)> = matching_lines(&file_to_search, &to_find);
    assert_eq!(results.len(), 2);

    assert_eq!(results[0], (3, "            thing one".to_string()));
    assert_eq!(results[1], (4, "            thing two".to_string()));
}

#[test]
fn matching_lines_uses_real_regex_syntax() {
    let contents = "goat\ngooooat\ngot\nboat";
    let pattern = Pattern::new("go+at").unwrap();
    let results = matching_lines(contents, &pattern);
    assert_eq!(
        results,
        vec![(1, "goat".to_string()), (2, "gooooat".to_string())]
    );
}

#[test]
fn matching_lines_anchored_pattern() {
    let contents = "prefix thing\nthing at start\nno match here";
    let pattern = Pattern::new("^thing").unwrap();
    let results = matching_lines(contents, &pattern);
    assert_eq!(results, vec![(2, "thing at start".to_string())]);
}

#[test]
fn invalid_pattern_is_rejected() {
    assert!(Pattern::new("(").is_none());
    assert!(Pattern::new("go+at").is_some());
}

#[test]
fn line_numbers_are_one_based_and_increasing() {
    let contents = "x\nmatch\nx\nmatch\nmatch";
    let pattern = Pattern::new("match").unwrap();
    let results = matching_lines(contents, &pattern);
    let numbers: Vec<usize> = results.iter().map(|m| m.0).collect();
    assert_eq!(numbers, vec![2, 4, 5]);
    assert!(numbers.windows(2).all(|w| w[0] < w[1]));
    assert!(numbers.iter().all(|&n| n >= 1));
}
