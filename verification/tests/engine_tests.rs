use grepx::cli::{Args, LogLevel, OutputFormat};
use grepx::engine::{execute_search, search_contents, worker_count, SearchResult};
use grepx::matcher::RegexMatcher;
use grepx::scan::{process_file, FileResult};

fn totals(result: &SearchResult) -> (usize, usize, usize, usize) {
    (
        result.total_matches,
        result.files_searched,
        result.files_with_matches,
        result.bytes_processed,
    )
}

#[test]
fn the_totals_start_at_zero() {
    assert_eq!(totals(&SearchResult::default()), (0, 0, 0, 0));
}

#[test]
fn every_file_enters_the_totals_once() {
    let mut result = SearchResult::default();
    result.record(&FileResult { matches: 3, bytes_processed: 10 });
    assert_eq!(totals(&result), (3, 1, 1, 10));
    result.record(&FileResult { matches: 0, bytes_processed: 5 });
    assert_eq!(totals(&result), (3, 2, 1, 15));
    result.record(&FileResult { matches: 4, bytes_processed: 0 });
    assert_eq!(totals(&result), (7, 3, 2, 15));
}

#[test]
fn the_totals_do_not_depend_on_the_order_of_the_files() {
    let outcomes = [
        FileResult { matches: 3, bytes_processed: 10 },
        FileResult { matches: 0, bytes_processed: 5 },
        FileResult { matches: 7, bytes_processed: 1 },
        FileResult { matches: 0, bytes_processed: 0 },
    ];
    let orders: [[usize; 4]; 4] = [[0, 1, 2, 3], [3, 2, 1, 0], [1, 3, 0, 2], [2, 0, 3, 1]];
    for order in orders.iter() {
        let mut result = SearchResult::default();
        for index in order.iter() {
            assert!(result.can_record(&outcomes[*index]));
            result.record(&outcomes[*index]);
        }
        assert_eq!(totals(&result), (10, 4, 2, 16));
    }
}

#[test]
fn an_outcome_that_would_overflow_a_total_cannot_be_recorded() {
    let mut result = SearchResult::default();
    result.record(&FileResult { matches: usize::MAX - 1, bytes_processed: 8 });
    assert!(result.can_record(&FileResult { matches: 1, bytes_processed: 0 }));
    assert!(!result.can_record(&FileResult { matches: 2, bytes_processed: 0 }));
    assert!(!result.can_record(&FileResult { matches: 0, bytes_processed: usize::MAX }));
    let full = SearchResult {
        total_matches: 0,
        files_searched: usize::MAX,
        files_with_matches: 0,
        bytes_processed: 0,
    };
    assert!(!full.can_record(&FileResult { matches: 0, bytes_processed: 0 }));
}

#[test]
fn the_worker_count_is_the_configured_one_or_the_processors() {
    assert_eq!(worker_count(3, Some(8)), 3);
    assert_eq!(worker_count(3, None), 3);
    assert_eq!(worker_count(0, Some(8)), 8);
    assert_eq!(worker_count(0, None), 1);
}

#[test]
fn the_total_is_the_sum_of_the_whole_file_counts() {
    let matcher = RegexMatcher::new("foo", false).unwrap();
    let files: Vec<Option<Vec<u8>>> = vec![
        Some(b"foo bar Foo".to_vec()),
        Some(b"nothing".to_vec()),
        None,
        Some(b"foo\nfoo\nfoo\n".to_vec()),
        Some(Vec::new()),
    ];
    let mut expected_matches = 0;
    let mut expected_bytes = 0;
    for file in files.iter() {
        if let Some(content) = file {
            expected_matches += matcher.match_count(content);
            expected_bytes += content.len();
        }
    }
    assert_eq!(expected_matches, 5);
    let result = search_contents(&matcher, &files, 64 * 1024);
    assert_eq!(totals(&result), (5, 4, 2, expected_bytes));
    assert_eq!(expected_bytes, 30);
}

#[test]
fn a_file_that_cannot_be_read_stays_out_of_the_totals() {
    let matcher = RegexMatcher::new("a", true).unwrap();
    let files: Vec<Option<Vec<u8>>> = vec![None, Some(b"aa".to_vec()), None];
    let result = search_contents(&matcher, &files, 1024);
    assert_eq!(totals(&result), (2, 1, 1, 2));
    let none: Vec<Option<Vec<u8>>> = vec![None];
    assert_eq!(totals(&search_contents(&matcher, &none, 1024)), (0, 0, 0, 0));
    let empty: Vec<Option<Vec<u8>>> = Vec::new();
    assert_eq!(totals(&search_contents(&matcher, &empty, 1024)), (0, 0, 0, 0));
}

#[test]
fn two_runs_on_the_same_files_give_the_same_totals() {
    let files: Vec<Option<Vec<u8>>> = vec![
        Some(b"alpha beta\ngamma alpha\n".to_vec()),
        None,
        Some(b"ALPHA".to_vec()),
    ];
    let first = search_contents(&RegexMatcher::new("alpha", false).unwrap(), &files, 8);
    let second = search_contents(&RegexMatcher::new("alpha", false).unwrap(), &files, 8);
    assert_eq!(totals(&first), totals(&second));
    let mut reversed = files.clone();
    reversed.reverse();
    let third = search_contents(&RegexMatcher::new("alpha", false).unwrap(), &reversed, 8);
    assert_eq!(totals(&first), totals(&third));
}

#[test]
fn the_run_counts_each_file_as_the_processor_does() {
    let matcher = RegexMatcher::new("ab", true).unwrap();
    let files: Vec<Option<Vec<u8>>> =
        vec![Some(b"ababababab".to_vec()), Some(b"ab".to_vec())];
    let mut expected = SearchResult::default();
    for file in files.iter() {
        if let Some(content) = file {
            expected.record(&process_file(content, &matcher, 3));
        }
    }
    assert_eq!(totals(&expected), (4, 2, 2, 12));
    assert_eq!(totals(&search_contents(&matcher, &files, 3)), (4, 2, 2, 12));
}

fn args(pattern: &str, case_sensitive: bool, chunk_size: usize) -> Args {
    Args {
        pattern: pattern.to_string(),
        path: Vec::new(),
        threads: 1,
        recursive: false,
        case_sensitive,
        line_numbers: false,
        files_with_matches: false,
        count: false,
        progress: false,
        chunk_size,
        format: OutputFormat::Text,
        log_level: LogLevel::Off,
    }
}

#[test]
fn a_run_compiles_the_pattern_and_searches_every_file() {
    let files: Vec<Option<Vec<u8>>> = vec![
        Some(b"foo bar Foo".to_vec()),
        None,
        Some(b"FOO".to_vec()),
        Some(b"bar".to_vec()),
    ];
    let loose = execute_search(&args("Foo", false, 64), &files).unwrap();
    assert_eq!(totals(&loose), (3, 3, 2, 17));
    let strict = execute_search(&args("Foo", true, 64), &files).unwrap();
    assert_eq!(totals(&strict), (1, 3, 1, 17));
}

#[test]
fn a_run_with_a_pattern_that_does_not_compile_fails_at_once() {
    let files: Vec<Option<Vec<u8>>> = vec![Some(b"anything".to_vec())];
    match execute_search(&args("(", true, 64), &files) {
        Ok(_) => panic!("the pattern must not compile"),
        Err(e) => assert_eq!(e.pattern, "("),
    }
}

#[test]
fn a_run_takes_its_chunk_size_in_kibibytes() {
    let mut content = vec![b'.'; 2050];
    content[2046..2050].copy_from_slice(b"abcd");
    let files: Vec<Option<Vec<u8>>> = vec![Some(content)];
    let cut = execute_search(&args("abcd", true, 2), &files).unwrap();
    assert_eq!(totals(&cut), (0, 1, 0, 2050));
    let whole = execute_search(&args("abcd", true, 3), &files).unwrap();
    assert_eq!(totals(&whole), (1, 1, 1, 2050));
}
