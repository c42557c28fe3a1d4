use grepx::cli::{Args, LogLevel, OutputFormat};
use grepx::matcher::RegexMatcher;
use grepx::output::{
    count_line, decimal, file_header, file_report, final_summary, line_report, match_summary,
    numbered_line, FileReport,
};

fn args(count: bool, files_with_matches: bool, line_numbers: bool) -> Args {
    Args {
        pattern: "x".to_string(),
        path: vec![".".to_string()],
        threads: 0,
        recursive: false,
        case_sensitive: false,
        line_numbers,
        files_with_matches,
        count,
        progress: false,
        chunk_size: 64,
        format: OutputFormat::Text,
        log_level: LogLevel::Info,
    }
}

#[test]
fn numbers_are_written_in_decimal() {
    assert_eq!(decimal(0), "0");
    assert_eq!(decimal(7), "7");
    assert_eq!(decimal(10), "10");
    assert_eq!(decimal(1234567890), "1234567890");
    assert_eq!(decimal(u64::MAX as u128), "18446744073709551615");
    assert_eq!(decimal(u128::MAX), u128::MAX.to_string());
    for n in 0..2000u128 {
        assert_eq!(decimal(n), n.to_string());
    }
}

#[test]
fn a_file_without_a_match_prints_nothing() {
    for count in [false, true] {
        for names in [false, true] {
            for lines in [false, true] {
                assert_eq!(file_report(&args(count, names, lines), 0), FileReport::Nothing);
            }
        }
    }
}

#[test]
fn the_report_follows_the_output_mode() {
    assert_eq!(file_report(&args(false, false, false), 2), FileReport::Summary);
    assert_eq!(file_report(&args(false, false, true), 2), FileReport::Lines);
    assert_eq!(file_report(&args(false, true, false), 2), FileReport::Name);
    assert_eq!(file_report(&args(false, true, true), 2), FileReport::Name);
    assert_eq!(file_report(&args(true, false, false), 2), FileReport::Count);
    assert_eq!(file_report(&args(true, false, true), 2), FileReport::Count);
    assert_eq!(file_report(&args(true, true, false), 2), FileReport::Name);
    assert_eq!(file_report(&args(true, true, true), 1), FileReport::Name);
}

#[test]
fn the_lines_have_their_fixed_wording() {
    assert_eq!(match_summary(3, "a/b.txt"), "Found 3 matches in a/b.txt");
    assert_eq!(count_line("a/b.txt", 12), "a/b.txt: 12");
    assert_eq!(file_header("a/b.txt"), "File: a/b.txt");
    assert_eq!(numbered_line(42, "some text"), "42: some text");
    assert_eq!(final_summary(5, 4), "Found 5 matches in 4 files");
    assert_eq!(final_summary(0, 0), "Found 0 matches in 0 files");
}

#[test]
fn the_line_report_numbers_the_matching_lines() {
    let matcher = RegexMatcher::new("foo", true).unwrap();
    let lines = vec![
        Some("no match".to_string()),
        Some("a foo here".to_string()),
        None,
        Some("foo foo".to_string()),
        Some("".to_string()),
    ];
    assert_eq!(
        line_report(&matcher, "dir/f.txt", &lines),
        vec![
            "File: dir/f.txt".to_string(),
            "2: a foo here".to_string(),
            "4: foo foo".to_string(),
            "".to_string(),
        ]
    );
}

#[test]
fn the_line_report_of_a_file_without_lines_is_header_and_blank() {
    let matcher = RegexMatcher::new("foo", true).unwrap();
    assert_eq!(
        line_report(&matcher, "f", &Vec::new()),
        vec!["File: f".to_string(), "".to_string()]
    );
}

#[test]
fn log_levels_have_their_filter_names() {
    assert_eq!(LogLevel::Off.filter_name(), "off");
    assert_eq!(LogLevel::Error.filter_name(), "error");
    assert_eq!(LogLevel::Warn.filter_name(), "warn");
    assert_eq!(LogLevel::Info.filter_name(), "info");
    assert_eq!(LogLevel::Debug.filter_name(), "debug");
    assert_eq!(LogLevel::Trace.filter_name(), "trace");
}

#[test]
fn the_chunk_size_is_given_in_kibibytes() {
    let mut config = args(false, false, false);
    assert_eq!(config.chunk_bytes(), Some(65536));
    config.chunk_size = 2;
    assert_eq!(config.chunk_bytes(), Some(2048));
    config.chunk_size = 0;
    assert_eq!(config.chunk_bytes(), Some(0));
    config.chunk_size = usize::MAX / 1024;
    assert_eq!(config.chunk_bytes(), Some((usize::MAX / 1024) * 1024));
    config.chunk_size = usize::MAX / 1024 + 1;
    assert_eq!(config.chunk_bytes(), None);
}
