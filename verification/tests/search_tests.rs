use minigrep::search;
use minigrep::search_case_insensitive;
use minigrep::search_with_config;
use minigrep::Config;

#[test]
fn case_sensitive() {
    let query = "duck";
    let contents = "\
Rust:
safe, fast, producktive.
Pick three.";

    assert_eq!(vec!("safe, fast, producktive."), search(query, contents));
}

#[test]
fn case_insensitive() {
    let query = "rUsT";
    let contents = "\
Rust:
safe, fast, productive.
Pick three.
Trust me.";

    assert_eq!(vec!("Rust:", "Trust me."), search_case_insensitive(query, contents));
}

#[test]
fn empty_query_matches_every_line() {
    assert_eq!(vec!["a", "b", "c"], search("", "a\nb\nc"));
}

#[test]
fn empty_query_case_insensitive_matches_every_line() {
    assert_eq!(vec!["a", "b", "c"], search_case_insensitive("", "a\nb\nc"));
}

#[test]
fn empty_contents_yield_no_lines() {
    assert!(search("x", "").is_empty());
    assert!(search("", "").is_empty());
    assert!(search_case_insensitive("x", "").is_empty());
}

#[test]
fn query_longer_than_longest_line_finds_nothing() {
    assert!(search("abcdefgh", "abc\nde").is_empty());
    assert!(search_case_insensitive("abcdefgh", "abc\nde").is_empty());
}

#[test]
fn carriage_return_before_line_feed_is_stripped() {
    assert_eq!(vec!["x", "y"], search("", "x\r\ny"));
}

#[test]
fn trailing_line_feed_adds_no_empty_line() {
    assert_eq!(vec!["a"], search("", "a\n"));
}

#[test]
fn lone_carriage_return_is_kept() {
    assert_eq!(vec!["a\rb"], search("", "a\rb"));
    assert_eq!(vec!["a\r"], search("", "a\r"));
}

#[test]
fn line_with_several_occurrences_appears_once() {
    assert_eq!(vec!["aaa aa"], search("aa", "aaa aa\nxyz"));
}

#[test]
fn results_keep_original_order() {
    assert_eq!(vec!["one t", "three t", "four t"], search("t", "one t\nsix\nthree t\nfour t"));
}

#[test]
fn case_insensitive_results_include_case_sensitive_ones() {
    let query = "Rust";
    let contents = "Rust:\nsafe, fast, productive.\ntrust me.\nRustaceans";
    let sensitive = search(query, contents);
    let insensitive = search_case_insensitive(query, contents);
    for line in sensitive {
        assert!(insensitive.contains(&line));
    }
}

#[test]
fn lowercasing_is_not_ascii_only() {
    assert_eq!(vec!["Äpfel:"], search_case_insensitive("ÄPFEL", "Äpfel:\nBirnen"));
}

#[test]
fn repeated_calls_give_identical_results() {
    let query = "st";
    let contents = "Rust:\nsafe, fast, productive.\nPick three.";
    assert_eq!(search(query, contents), search(query, contents));
    assert_eq!(
        search_case_insensitive(query, contents),
        search_case_insensitive(query, contents)
    );
}

#[test]
fn config_selects_case_sensitive_mode() {
    let config = Config {
        query: String::from("rUsT"),
        file_path: String::from("poem.txt"),
        ignore_case: false,
    };
    let contents = "Rust:\nTrust me.";
    let results = search_with_config(&config, contents);
    assert!(results.is_empty());
}

#[test]
fn config_selects_case_insensitive_mode() {
    let config = Config {
        query: String::from("rUsT"),
        file_path: String::from("poem.txt"),
        ignore_case: true,
    };
    let contents = "Rust:\nTrust me.";
    assert_eq!(vec!["Rust:", "Trust me."], search_with_config(&config, contents));
}
