//! What a search prints: which report a file gets, and the text of each line.

use vstd::prelude::*;
use vstd::string::*;
use vstd::utf8::encode_utf8;
use crate::cli::Args;
use crate::matcher::{pattern_count, RegexMatcher};

verus! {

/// The character of a decimal digit.
pub open spec fn digit_char(digit: int) -> char {
    if digit == 0 {
        '0'
    } else if digit == 1 {
        '1'
    } else if digit == 2 {
        '2'
    } else if digit == 3 {
        '3'
    } else if digit == 4 {
        '4'
    } else if digit == 5 {
        '5'
    } else if digit == 6 {
        '6'
    } else if digit == 7 {
        '7'
    } else if digit == 8 {
        '8'
    } else {
        '9'
    }
}

/// A number written in decimal, without leading zeros.
pub open spec fn decimal_digits(n: nat) -> Seq<char>
    decreases n,
{
    if n < 10 {
        seq![digit_char(n as int)]
    } else {
        decimal_digits(n / 10).push(digit_char((n % 10) as int))
    }
}

/// The digits in front of the last ones written: none for 0.
spec fn leading_digits(n: nat) -> Seq<char> {
    if n == 0 {
        Seq::empty()
    } else {
        decimal_digits(n)
    }
}

/// The text of one decimal digit.
pub fn digit_text(digit: u128) -> (text: &'static str)
    requires
        digit < 10,
    ensures
        text@ == seq![digit_char(digit as int)],
{
    proof {
        reveal_strlit("0");
        reveal_strlit("1");
        reveal_strlit("2");
        reveal_strlit("3");
        reveal_strlit("4");
        reveal_strlit("5");
        reveal_strlit("6");
        reveal_strlit("7");
        reveal_strlit("8");
        reveal_strlit("9");
    }
    if digit == 0 {
        "0"
    } else if digit == 1 {
        "1"
    } else if digit == 2 {
        "2"
    } else if digit == 3 {
        "3"
    } else if digit == 4 {
        "4"
    } else if digit == 5 {
        "5"
    } else if digit == 6 {
        "6"
    } else if digit == 7 {
        "7"
    } else if digit == 8 {
        "8"
    } else {
        "9"
    }
}

/// Write a number in decimal.
pub fn decimal(n: u128) -> (text: String)
    ensures
        text@ == decimal_digits(n as nat),
{
    let mut text = String::from_str(digit_text(n % 10));
    let mut rest = n / 10;
    while rest > 0
        invariant
            decimal_digits(n as nat) == leading_digits(rest as nat) + text@,
        decreases rest,
    {
        let head = String::from_str(digit_text(rest % 10));
        text = head.concat(text.as_str());
        rest = rest / 10;
    }
    text
}

/// The report that a file gets once it has been processed.
#[derive(Debug, Clone, Copy, PartialEq, Eq, Structural)]
pub enum FileReport {
    /// No output.
    Nothing,
    /// One line with the number of matches and the path.
    Summary,
    /// The path as a header, every matching line with its number, and a
    /// blank line.
    Lines,
    /// The path alone.
    Name,
    /// The path and the number of matches.
    Count,
}

/// The report for a file with the given number of matches: none for a file
/// without a match; otherwise the matching lines or a summary where neither
/// counts nor file names are asked for, the file name where file names are
/// asked for, and the count where only counts are.
pub open spec fn report_for(
    count: bool,
    files_with_matches: bool,
    line_numbers: bool,
    matches: int,
) -> FileReport {
    if matches <= 0 {
        FileReport::Nothing
    } else if !count && !files_with_matches {
        if line_numbers {
            FileReport::Lines
        } else {
            FileReport::Summary
        }
    } else if files_with_matches {
        FileReport::Name
    } else {
        FileReport::Count
    }
}

/// Decide what to print for a file with the given number of matches.
pub fn file_report(args: &Args, matches: usize) -> (report: FileReport)
    ensures
        report == report_for(args.count, args.files_with_matches, args.line_numbers, matches as int),
{
    if matches == 0 {
        FileReport::Nothing
    } else if !args.count && !args.files_with_matches {
        if args.line_numbers {
            FileReport::Lines
        } else {
            FileReport::Summary
        }
    } else if args.files_with_matches {
        FileReport::Name
    } else {
        FileReport::Count
    }
}

/// The text `Found <matches> matches in <path>`.
pub open spec fn summary_text(matches: nat, path: Seq<char>) -> Seq<char> {
    "Found "@ + decimal_digits(matches) + " matches in "@ + path
}

/// The text `<path>: <count>`.
pub open spec fn count_text(path: Seq<char>, count: nat) -> Seq<char> {
    path + ": "@ + decimal_digits(count)
}

/// The text `File: <path>`.
pub open spec fn header_text(path: Seq<char>) -> Seq<char> {
    "File: "@ + path
}

/// The text `<number>: <line>`.
pub open spec fn numbered_text(number: nat, line: Seq<char>) -> Seq<char> {
    decimal_digits(number) + ": "@ + line
}

/// The text `Found <matches> matches in <files> files`.
pub open spec fn total_text(matches: nat, files: nat) -> Seq<char> {
    "Found "@ + decimal_digits(matches) + " matches in "@ + decimal_digits(files) + " files"@
}

/// The summary line of one file.
pub fn match_summary(matches: usize, path: &str) -> (line: String)
    ensures
        line@ == summary_text(matches as nat, path@),
{
    let mut line = String::from_str("Found ");
    line.append(decimal(matches as u128).as_str());
    line.append(" matches in ");
    line.append(path);
    line
}

/// The count line of one file.
pub fn count_line(path: &str, count: usize) -> (line: String)
    ensures
        line@ == count_text(path@, count as nat),
{
    let mut line = String::from_str(path);
    line.append(": ");
    line.append(decimal(count as u128).as_str());
    line
}

/// The header in front of the matching lines of one file.
pub fn file_header(path: &str) -> (line: String)
    ensures
        line@ == header_text(path@),
{
    let mut line = String::from_str("File: ");
    line.append(path);
    line
}

/// One matching line with its number.
pub fn numbered_line(number: usize, text: &str) -> (line: String)
    ensures
        line@ == numbered_text(number as nat, text@),
{
    let mut line = decimal(number as u128);
    line.append(": ");
    line.append(text);
    line
}

/// The line that closes a run.
pub fn final_summary(matches: usize, files: usize) -> (line: String)
    ensures
        line@ == total_text(matches as nat, files as nat),
{
    let mut line = String::from_str("Found ");
    line.append(decimal(matches as u128).as_str());
    line.append(" matches in ");
    line.append(decimal(files as u128).as_str());
    line.append(" files");
    line
}

/// The numbered lines among the first lines of a file that hold a match. A
/// line counts for the numbering whether it could be read or not; one that
/// could not be read is passed over.
pub open spec fn numbered_matches(
    pattern: Seq<char>,
    case_sensitive: bool,
    lines: Seq<Option<String>>,
) -> Seq<Seq<char>>
    decreases lines.len(),
{
    if lines.len() == 0 {
        Seq::empty()
    } else {
        let front = numbered_matches(pattern, case_sensitive, lines.drop_last());
        match lines.last() {
            Some(text) => if pattern_count(pattern, case_sensitive, encode_utf8(text@))
                > 0 {
                front.push(numbered_text(lines.len(), text@))
            } else {
                front
            },
            None => front,
        }
    }
}

/// The texts of a sequence of strings.
pub open spec fn texts(strings: Seq<String>) -> Seq<Seq<char>> {
    Seq::new(strings.len(), |i: int| strings[i]@)
}

/// The report of a file by lines: the header with the path, every line that
/// holds a match with its 1-based number in front, and an empty line.
pub fn line_report(matcher: &RegexMatcher, path: &str, lines: &Vec<Option<String>>) -> (report:
    Vec<String>)
    ensures
        texts(report@) == seq![header_text(path@)] + numbered_matches(
            matcher@.pattern,
            matcher@.case_sensitive,
            lines@,
        ) + seq![Seq::<char>::empty()],
{
    let mut report: Vec<String> = Vec::new();
    report.push(file_header(path));
    assert(texts(report@) == seq![header_text(path@)]);
    let mut i: usize = 0;
    while i < lines.len()
        invariant
            i <= lines.len(),
            texts(report@) == seq![header_text(path@)] + numbered_matches(
                matcher@.pattern,
                matcher@.case_sensitive,
                lines@.take(i as int),
            ),
        decreases lines.len() - i,
    {
        proof {
            assert(lines@.take(i + 1).drop_last() == lines@.take(i as int));
        }
        match &lines[i] {
            Some(text) => {
                if matcher.is_match(text.as_str().as_bytes()) {
                    let ghost so_far = report@;
                    report.push(numbered_line(i + 1, text.as_str()));
                    proof {
                        assert(texts(report@) == texts(so_far).push(
                            numbered_text((i + 1) as nat, text@),
                        ));
                    }
                }
            },
            None => {},
        }
        i += 1;
    }
    let ghost so_far = report@;
    report.push(String::new());
    proof {
        assert(lines@.take(lines.len() as int) == lines@);
        assert(texts(report@) == texts(so_far).push(Seq::<char>::empty()));
    }
    report
}

} // verus!
