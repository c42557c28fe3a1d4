//! The pattern matcher: a compiled regular expression together with the
//! pattern text it was built from, searched over raw byte buffers.

use std::borrow::Cow;
use vstd::prelude::*;
use vstd::string::*;
use vstd::utf8::*;
use crate::lines::{
    ascending, lemma_line_of_offset, lemma_line_starts_upto, lemma_rank_is_split_point,
    line_starts, line_starts_upto, newlines_before, resolve_line, strictly_ascending,
};
use crate::utf8::{str_range, NEWLINE};

verus! {

/// The compiled regular expression of the `regex` crate. Its inside is not
/// visible to the verifier.
#[verifier::external_type_specification]
#[verifier::external_body]
pub struct ExRegex(regex::Regex);

/// The error that the `regex` crate reports for a pattern it cannot compile.
#[verifier::external_type_specification]
#[verifier::external_body]
pub struct ExRegexError(regex::Error);

/// What `regex::RegexBuilder::build` returns for a pattern and the three
/// flags that this library sets on the builder.
pub uninterp spec fn compiled(
    pattern: Seq<char>,
    ignore_case: bool,
    multi_line: bool,
    dot_matches_new_line: bool,
) -> Result<regex::Regex, regex::Error>;

/// The byte spans `(start, end)` of the successive matches that
/// `regex::Regex::find_iter` yields for a haystack, in the order in which it
/// yields them.
pub uninterp spec fn match_spans(re: regex::Regex, haystack: Seq<char>) -> Seq<(usize, usize)>;

/// What the `regex` crate guarantees of the spans of one search: every span
/// lies inside the haystack with `start <= end`, both ends fall on character
/// boundaries, and no span begins before the one in front of it has ended.
pub open spec fn spans_fit(spans: Seq<(usize, usize)>, bytes: Seq<u8>) -> bool {
    &&& forall|i: int|
        0 <= i < spans.len() ==> {
            &&& (#[trigger] spans[i]).0 <= spans[i].1 <= bytes.len()
            &&& is_char_boundary(bytes, spans[i].0 as int)
            &&& is_char_boundary(bytes, spans[i].1 as int)
        }
    &&& forall|i: int| 0 < i < spans.len() ==> spans[i - 1].1 <= (#[trigger] spans[i]).0
}

/// Calls `regex::RegexBuilder::new(pattern)`, sets `case_insensitive`,
/// `multi_line` and `dot_matches_new_line` to the given flags and calls
/// `build`. The result is a function of the pattern and the flags alone.
#[verifier::external_body]
fn compile(pattern: &str, ignore_case: bool, multi_line: bool, dot_matches_new_line: bool) -> (r:
    Result<regex::Regex, regex::Error>)
    ensures
        r == compiled(pattern@, ignore_case, multi_line, dot_matches_new_line),
{
    regex::RegexBuilder::new(pattern)
        .case_insensitive(ignore_case)
        .multi_line(multi_line)
        .dot_matches_new_line(dot_matches_new_line)
        .build()
}

/// Formats a `regex::Error` through its `Display` impl. Nothing is claimed of
/// the text.
#[verifier::external_body]
fn error_text(e: &regex::Error) -> (s: String) {
    e.to_string()
}

/// Calls `regex::Regex::find_iter` and collects the start and end offset of
/// every match it yields, in order. The matches are successive and do not
/// overlap, and their offsets are byte offsets into the haystack that fall on
/// character boundaries, with `start <= end`.
#[verifier::external_body]
fn find_spans(re: &regex::Regex, haystack: &str) -> (spans: Vec<(usize, usize)>)
    ensures
        spans@ == match_spans(*re, haystack@),
        spans_fit(spans@, haystack.spec_bytes()),
{
    re.find_iter(haystack).map(|m| (m.start(), m.end())).collect()
}

/// Calls `regex::Regex::find_iter` and counts the matches it yields. The
/// search moves on past the end of each match, and past an empty match by one
/// position more, so the matches end at strictly increasing offsets and a
/// haystack of `n` bytes holds at most `n + 1` of them.
#[verifier::external_body]
fn count_spans(re: &regex::Regex, haystack: &str) -> (n: usize)
    ensures
        n == match_spans(*re, haystack@).len(),
        n <= haystack.spec_bytes().len() + 1,
{
    re.find_iter(haystack).count()
}

/// Calls `regex::Regex::is_match`, which is true exactly when the haystack
/// holds a match, that is when `find_iter` yields at least one.
#[verifier::external_body]
fn has_match(re: &regex::Regex, haystack: &str) -> (b: bool)
    ensures
        b == (match_spans(*re, haystack@).len() > 0),
{
    re.is_match(haystack)
}

/// The spans of the matches of a pattern in a byte buffer: those that the
/// compiled pattern finds in the buffer read as text. A buffer that is not
/// valid UTF-8 holds no match, and neither does any buffer for a pattern that
/// does not compile.
pub open spec fn pattern_spans(pattern: Seq<char>, case_sensitive: bool, text: Seq<u8>) -> Seq<
    (usize, usize),
> {
    match compiled(pattern, !case_sensitive, true, false) {
        Ok(re) => if valid_utf8(text) {
            match_spans(re, decode_utf8(text))
        } else {
            Seq::empty()
        },
        Err(_) => Seq::empty(),
    }
}

/// The number of matches of a pattern in a byte buffer.
pub open spec fn pattern_count(pattern: Seq<char>, case_sensitive: bool, text: Seq<u8>) -> nat {
    pattern_spans(pattern, case_sensitive, text).len()
}

/// A pattern that could not be compiled, with the reason the compiler gave.
#[derive(Debug)]
pub struct PatternError {
    pub pattern: String,
    pub reason: String,
}

impl PatternError {
    /// The message for the pattern that failed: `Failed to compile regex
    /// pattern: <pattern>`.
    pub open spec fn message(pattern: Seq<char>) -> Seq<char> {
        "Failed to compile regex pattern: "@ + pattern
    }

    /// Say which pattern failed.
    pub fn describe(&self) -> (text: String)
        ensures
            text@ == PatternError::message(self.pattern@),
    {
        let mut text = String::from_str("Failed to compile regex pattern: ");
        text.append(self.pattern.as_str());
        text
    }
}

/// A match found in the text.
#[derive(Debug, Clone)]
pub struct Match<'a> {
    pub text: Cow<'a, str>,
    pub line_number: Option<usize>,
    pub byte_offset: usize,
    pub byte_length: usize,
}

impl<'a> Match<'a> {
    /// Whether this match is the one of a span in a buffer: it has the offset
    /// and the length of the span and the text that the span covers, and its
    /// line, where lines are asked for, is one more than the number of
    /// newlines in front of the span.
    pub open spec fn covers(self, bytes: Seq<u8>, span: (usize, usize), with_line: bool) -> bool {
        &&& self.byte_offset == span.0
        &&& self.byte_length == span.1 - span.0
        &&& self.text@ == decode_utf8(bytes.subrange(span.0 as int, span.1 as int))
        &&& with_line ==> (self.line_number matches Some(line) && line == newlines_before(
            bytes,
            span.0 as int,
        ) + 1)
        &&& !with_line ==> self.line_number is None
    }
}

/// What a matcher stands for: the pattern text and whether letter case counts.
pub struct MatcherView {
    pub pattern: Seq<char>,
    pub case_sensitive: bool,
}

/// Regex matcher for searching text content.
pub struct RegexMatcher {
    regex: regex::Regex,
    pattern: String,
    case_sensitive: bool,
}

impl View for RegexMatcher {
    type V = MatcherView;

    closed spec fn view(&self) -> MatcherView {
        MatcherView { pattern: self.pattern@, case_sensitive: self.case_sensitive }
    }
}

impl RegexMatcher {
    /// The compiled expression is the one that the pattern text and the case
    /// flag give, in multi-line mode and with `.` stopping at a newline.
    #[verifier::type_invariant]
    spec fn built_from_pattern(self) -> bool {
        compiled(self.pattern@, !self.case_sensitive, true, false) == Ok::<
            regex::Regex,
            regex::Error,
        >(self.regex)
    }

    /// The spans of this matcher's matches in a byte buffer.
    pub open spec fn spans(&self, text: Seq<u8>) -> Seq<(usize, usize)> {
        pattern_spans(self@.pattern, self@.case_sensitive, text)
    }

    /// Create a new RegexMatcher with the given pattern. It succeeds exactly
    /// when the pattern compiles; the error carries the pattern text.
    pub fn new(pattern: &str, case_sensitive: bool) -> (r: Result<RegexMatcher, PatternError>)
        ensures
            r is Ok <==> compiled(pattern@, !case_sensitive, true, false) is Ok,
            r matches Ok(m) ==> m@.pattern == pattern@ && m@.case_sensitive == case_sensitive,
            r matches Err(e) ==> e.pattern@ == pattern@,
    {
        match compile(pattern, !case_sensitive, true, false) {
            Ok(regex) => Ok(RegexMatcher { regex, pattern: pattern.to_owned(), case_sensitive }),
            Err(e) => Err(PatternError { pattern: pattern.to_owned(), reason: error_text(&e) }),
        }
    }

    /// Get the regex pattern.
    pub fn pattern(&self) -> (p: &str)
        ensures
            p@ == self@.pattern,
    {
        self.pattern.as_str()
    }

    /// Whether the matcher tells upper case from lower case.
    pub fn case_sensitive(&self) -> (b: bool)
        ensures
            b == self@.case_sensitive,
    {
        self.case_sensitive
    }

    /// Check if the text contains any match.
    pub fn is_match(&self, text: &[u8]) -> (b: bool)
        ensures
            b == (self.spans(text@).len() > 0),
    {
        proof {
            use_type_invariant(self);
        }
        match core::str::from_utf8(text) {
            Ok(text_str) => {
                proof {
                    encode_utf8_decode_utf8(text_str@);
                }
                has_match(&self.regex, text_str)
            },
            Err(_) => false,
        }
    }

    /// Count the number of matches in the text. A buffer of `n` bytes holds
    /// at most `n + 1` matches.
    pub fn match_count(&self, text: &[u8]) -> (n: usize)
        ensures
            n == self.spans(text@).len(),
            n <= text@.len() + 1,
    {
        proof {
            use_type_invariant(self);
        }
        match core::str::from_utf8(text) {
            Ok(text_str) => {
                proof {
                    encode_utf8_decode_utf8(text_str@);
                }
                count_spans(&self.regex, text_str)
            },
            Err(_) => 0,
        }
    }

    /// Find all matches in the given text, in the order in which they occur
    /// and without overlap. Each carries its span, the text it covers and,
    /// where line numbers are asked for, the 1-based line on which it starts:
    /// one more than the number of newlines in front of it.
    pub fn find_matches<'a>(&self, text: &'a [u8], with_line_numbers: bool) -> (found: Vec<
        Match<'a>,
    >)
        ensures
            found.len() == self.spans(text@).len(),
            spans_fit(self.spans(text@), text@),
            forall|i: int|
                0 <= i < found.len() ==> (#[trigger] found[i]).covers(
                    text@,
                    self.spans(text@)[i],
                    with_line_numbers,
                ),
    {
        proof {
            use_type_invariant(self);
        }
        let text_str = match core::str::from_utf8(text) {
            Ok(s) => s,
            Err(_) => {
                return Vec::new();
            },
        };
        proof {
            encode_utf8_decode_utf8(text_str@);
        }
        let spans = find_spans(&self.regex, text_str);
        self.collect_matches(text_str, spans.as_slice(), with_line_numbers)
    }

    /// Turn the spans of a search in a text into matches, in the order of the
    /// spans: each match with the offset and length of its span, the text
    /// that the span covers and, where line numbers are asked for, the
    /// 1-based line on which the span starts.
    pub fn collect_matches<'a>(
        &self,
        text: &'a str,
        spans: &[(usize, usize)],
        with_line_numbers: bool,
    ) -> (found: Vec<Match<'a>>)
        requires
            spans_fit(spans@, text.spec_bytes()),
        ensures
            found.len() == spans@.len(),
            forall|i: int|
                0 <= i < found.len() ==> (#[trigger] found[i]).covers(
                    text.spec_bytes(),
                    spans@[i],
                    with_line_numbers,
                ),
    {
        let line_map = if with_line_numbers {
            self.create_line_map(text)
        } else {
            Vec::new()
        };
        let text_len = text.as_bytes().len();
        assert(line_map@.len() == line_map.len());
        let mut found: Vec<Match<'a>> = Vec::new();
        let mut i: usize = 0;
        while i < spans.len()
            invariant
                i <= spans@.len(),
                text.spec_bytes().len() == text_len,
                found.len() == i,
                spans_fit(spans@, text.spec_bytes()),
                with_line_numbers ==> line_map@ == line_starts(text.spec_bytes()),
                line_map@.len() <= usize::MAX,
                ascending(line_map@),
                forall|k: int|
                    0 <= k < i ==> (#[trigger] found[k]).covers(
                        text.spec_bytes(),
                        spans@[k],
                        with_line_numbers,
                    ),
            decreases spans@.len() - i,
        {
            let start = spans[i].0;
            let end = spans[i].1;
            let piece = str_range(text, start, end);
            let line_number = if with_line_numbers {
                proof {
                    lemma_line_of_offset(text.spec_bytes(), start as int);
                }
                self.find_line_number(line_map.as_slice(), start)
            } else {
                None
            };
            found.push(
                Match {
                    text: Cow::Borrowed(piece),
                    line_number,
                    byte_offset: start,
                    byte_length: end - start,
                },
            );
            i += 1;
        }
        found
    }

    /// Create the table of line starts of a text: offset 0, and the offset
    /// behind every newline, in strictly ascending order.
    pub fn create_line_map(&self, text: &str) -> (positions: Vec<usize>)
        ensures
            positions@ == line_starts(text.spec_bytes()),
            positions@.len() >= 1,
            positions@[0] == 0,
            strictly_ascending(positions@),
    {
        let bytes = text.as_bytes();
        let mut positions: Vec<usize> = Vec::new();
        positions.push(0);
        let mut i: usize = 0;
        while i < bytes.len()
            invariant
                i <= bytes.len(),
                bytes@ == text.spec_bytes(),
                positions@ == line_starts_upto(bytes@, i as int),
            decreases bytes.len() - i,
        {
            if bytes[i] == NEWLINE {
                positions.push(i + 1);
            }
            i += 1;
        }
        proof {
            lemma_line_starts_upto(bytes@, bytes@.len() as int, 0);
        }
        positions
    }

    /// Find the line number for a given byte offset in an ascending table of
    /// line starts: the number of starts at or before the offset, and no
    /// line where the offset lies in front of them all.
    pub fn find_line_number(&self, line_map: &[usize], offset: usize) -> (line: Option<usize>)
        requires
            ascending(line_map@),
        ensures
            line == resolve_line(line_map@, offset as int),
    {
        let mut low: usize = 0;
        let mut high: usize = line_map.len();
        while low < high
            invariant
                low <= high <= line_map.len(),
                ascending(line_map@),
                forall|i: int| 0 <= i < low ==> line_map[i] <= offset,
                forall|i: int| high <= i < line_map.len() ==> line_map[i] > offset,
            decreases high - low,
        {
            let middle = low + (high - low) / 2;
            if line_map[middle] <= offset {
                low = middle + 1;
            } else {
                high = middle;
            }
        }
        proof {
            lemma_rank_is_split_point(line_map@, offset as int, low as int);
        }
        if low > 0 {
            Some(low)
        } else {
            None
        }
    }
}

} // verus!
