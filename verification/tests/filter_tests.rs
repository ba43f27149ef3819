use log_filter::config::Config;
use log_filter::engine::run_engine;
use log_filter::engine::Outcome;
use log_filter::search;
use log_filter::search_case_insensitive;
use log_filter::text::count_lines;
use log_filter::text::split_lines;

fn config_for(query: &str, ignore_case: bool) -> Config {
    Config {
        search_query: String::from(query),
        file_path: String::from("input.txt"),
        output_file: String::from("results.txt"),
        ignore_case,
    }
}

#[test]
fn total_lines_counts_delimited_segments() {
    assert_eq!(count_lines(""), 0);
    assert_eq!(count_lines("a"), 1);
    assert_eq!(count_lines("a\n"), 1);
    assert_eq!(count_lines("a\nb"), 2);
    assert_eq!(count_lines("\n"), 1);
    assert_eq!(count_lines("a\r\nb\r\n"), 2);
}

#[test]
fn split_lines_strips_terminators_only() {
    assert_eq!(split_lines("apple\nBanana\ncherry\n"), vec!["apple", "Banana", "cherry"]);
    assert_eq!(split_lines("a\r\nb"), vec!["a", "b"]);
    assert_eq!(split_lines("\n"), vec![""]);
    assert_eq!(split_lines("tail\r"), vec!["tail\r"]);
    assert!(split_lines("").is_empty());
}

#[test]
fn case_sensitive_search_finds_exact_substrings() {
    let contents = "Rust:\nsafe, fast, productive.\nPick three.\nDuct tape.";
    assert_eq!(search("duct", contents), vec!["safe, fast, productive."]);
}

#[test]
fn case_sensitive_search_keeps_file_order() {
    let contents = "abc\nxyz\nbca";
    assert_eq!(search("a", contents), vec!["abc", "bca"]);
    assert_eq!(search("q", contents), Vec::<&str>::new());
}

#[test]
fn case_insensitive_search_folds_both_sides() {
    let contents = "Rust:\nsafe, fast, productive.\nPick three.\nTrust me.";
    assert_eq!(search_case_insensitive("rUsT", contents), vec!["Rust:", "Trust me."]);
}

#[test]
fn case_insensitive_search_returns_original_text() {
    // Would fail if case folding handed its argument back unchanged:
    // "AN" only matches "Banana" after both sides are lower-cased.
    assert_eq!(search_case_insensitive("AN", "apple\nBanana"), vec!["Banana"]);
}

#[test]
fn empty_query_matches_every_line() {
    let contents = "a\nb\nc";
    assert_eq!(search("", contents), vec!["a", "b", "c"]);
    assert_eq!(search_case_insensitive("", contents), vec!["a", "b", "c"]);
}

#[test]
fn engine_run_twice_gives_identical_output() {
    let config = config_for("an", true);
    let contents = "apple\nBanana\ncherry\n";
    let first = run_engine(&config, contents);
    let second = run_engine(&config, contents);
    match (first, second) {
        (
            Outcome::Matches { output: first_output, .. },
            Outcome::Matches { output: second_output, .. },
        ) => assert_eq!(first_output, second_output),
        _ => panic!("both runs should find a match"),
    }
}

#[test]
fn engine_on_empty_file_reports_no_matches() {
    let config = config_for("anything", true);
    match run_engine(&config, "") {
        Outcome::NoMatches { total_lines } => assert_eq!(total_lines, 0),
        Outcome::Matches { .. } => panic!("an empty file has no matching lines"),
    }
}

#[test]
fn engine_finds_banana_case_insensitively() {
    let config = config_for("an", true);
    match run_engine(&config, "apple\nBanana\ncherry\n") {
        Outcome::Matches { total_lines, found_lines, output } => {
            assert_eq!(total_lines, 3);
            assert_eq!(found_lines, 1);
            assert_eq!(output, "Banana\n");
        }
        Outcome::NoMatches { .. } => panic!("'an' should match 'Banana'"),
    }
}

#[test]
fn engine_reports_zero_matches_without_output() {
    let config = config_for("xyz", true);
    match run_engine(&config, "foo\nbar\n") {
        Outcome::NoMatches { total_lines } => assert_eq!(total_lines, 2),
        Outcome::Matches { .. } => panic!("'xyz' matches nothing in 'foo' or 'bar'"),
    }
}

#[test]
fn engine_output_joins_matches_in_order() {
    let config = config_for("a", false);
    match run_engine(&config, "abc\nxyz\nbca") {
        Outcome::Matches { total_lines, found_lines, output } => {
            assert_eq!(total_lines, 3);
            assert_eq!(found_lines, 2);
            assert_eq!(output, "abc\nbca\n");
        }
        Outcome::NoMatches { .. } => panic!("'a' should match two lines"),
    }
}

#[test]
fn config_rejects_missing_file_path() {
    let args = vec![String::from("prog"), String::from("query")];
    let result = Config::new(&args);
    match result {
        Err(message) => assert!(message.contains("Not enough arguments")),
        Ok(_) => panic!("two arguments are not enough"),
    }
}

#[test]
fn config_uses_explicit_output_name_verbatim() {
    let args = vec![
        String::from("prog"),
        String::from("query"),
        String::from("input.txt"),
        String::from("custom_out.log"),
    ];
    let config = Config::new(&args).unwrap();
    assert_eq!(config.output_file, "custom_out.log");
}

#[test]
fn config_defaults_output_name_and_fixes_case_policy() {
    let args = vec![String::from("prog"), String::from("query"), String::from("input.txt")];
    let config = Config::new(&args).unwrap();
    assert_eq!(config.search_query, "query");
    assert_eq!(config.file_path, "input.txt");
    assert_eq!(config.output_file, "results.txt");
    assert!(config.ignore_case);
}
