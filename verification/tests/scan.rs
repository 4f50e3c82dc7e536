use grep_cli::contains_substring;
use grep_cli::find_string_in_file;
use grep_cli::grep::GrepArgs;

fn poem_lines() -> Vec<String> {
    vec![
        "I'm nobody! Who are you?".to_string(),
        "Are you nobody, too?".to_string(),
        "Then there's a pair of us - don't tell!".to_string(),
        "They'd banish us, you know.".to_string(),
        "".to_string(),
        "How dreary to be somebody!".to_string(),
        "How public, like a frog".to_string(),
        "To tell your name the livelong day".to_string(),
        "To an admiring bog!".to_string(),
    ]
}

fn request(query: &str, ignore_case: bool) -> GrepArgs {
    let args = vec![
        "".to_string(),
        query.to_string(),
        "poem.txt".to_string(),
    ];
    GrepArgs::build(&args, ignore_case).unwrap()
}

#[test]
fn string_found_case_sensitive() {
    let results = find_string_in_file(&request("Are", false), &poem_lines());
    assert_eq!(results.len(), 1);
}

#[test]
fn string_not_found() {
    let results = find_string_in_file(&request("quantum", false), &poem_lines());
    assert_eq!(results.len(), 0);
}

#[test]
fn string_found_case_insensitive() {
    let results = find_string_in_file(&request("Are", true), &poem_lines());
    assert_eq!(results.len(), 2);
}

#[test]
fn four_lines_of_the_poem_contain_you() {
    let results = find_string_in_file(&request("you", false), &poem_lines());
    assert_eq!(results.len(), 4);
}

#[test]
fn case_insensitive_matches_every_casing() {
    let lines = vec![
        "Are you nobody, too?".to_string(),
        "are you nobody, too?".to_string(),
        "ARE YOU NOBODY, TOO?".to_string(),
    ];
    let results = find_string_in_file(&request("Are", true), &lines);
    assert_eq!(
        results,
        vec![
            "are you nobody, too?".to_string(),
            "are you nobody, too?".to_string(),
            "are you nobody, too?".to_string(),
        ]
    );
}

#[test]
fn matches_come_in_file_order() {
    let lines = vec![
        "first: you".to_string(),
        "second: nothing".to_string(),
        "third: you".to_string(),
        "fourth: nothing".to_string(),
        "fifth: you".to_string(),
    ];
    let results = find_string_in_file(&request("you", false), &lines);
    assert_eq!(
        results,
        vec![
            "first: you".to_string(),
            "third: you".to_string(),
            "fifth: you".to_string(),
        ]
    );
}

#[test]
fn scanning_twice_yields_identical_results() {
    let args = request("you", false);
    let lines = poem_lines();
    let first = find_string_in_file(&args, &lines);
    let second = find_string_in_file(&args, &lines);
    assert_eq!(first, second);
}

#[test]
fn empty_query_matches_every_line() {
    // The validator refuses an empty query; the scanner itself is defined
    // on every request, and an empty query occurs in every line.
    let args = GrepArgs {
        query: "".to_string(),
        file_path: "poem.txt".to_string(),
        ignore_case: false,
    };
    let lines = poem_lines();
    let results = find_string_in_file(&args, &lines);
    assert_eq!(results.len(), lines.len());
}

#[test]
fn no_lines_no_matches() {
    let results = find_string_in_file(&request("you", false), &Vec::new());
    assert_eq!(results.len(), 0);
}

#[test]
fn substring_found_anywhere_in_the_line() {
    assert!(contains_substring("hello world", "hello"));
    assert!(contains_substring("hello world", "o w"));
    assert!(contains_substring("hello world", "world"));
    assert!(contains_substring("hello world", ""));
    assert!(!contains_substring("hello world", "worlds"));
    assert!(!contains_substring("", "a"));
    assert!(!contains_substring("hello world", "Hello"));
}
