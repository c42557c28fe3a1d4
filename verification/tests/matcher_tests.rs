use grepx::matcher::RegexMatcher;

#[test]
fn case_insensitive_pattern_finds_both_spellings() {
    let matcher = RegexMatcher::new("Foo", false).unwrap();
    assert_eq!(matcher.match_count(b"foo bar Foo"), 2);
    assert!(matcher.is_match(b"foo bar Foo"));
    let found = matcher.find_matches(b"foo bar Foo", false);
    assert_eq!(found.len(), 2);
    assert_eq!(found[0].byte_offset, 0);
    assert_eq!(found[0].text, "foo");
    assert_eq!(found[1].byte_offset, 8);
    assert_eq!(found[1].text, "Foo");
}

#[test]
fn case_sensitive_pattern_finds_exact_spelling_only() {
    let matcher = RegexMatcher::new("Foo", true).unwrap();
    assert_eq!(matcher.match_count(b"foo bar Foo"), 1);
    let found = matcher.find_matches(b"foo bar Foo", false);
    assert_eq!(found.len(), 1);
    assert_eq!(found[0].byte_offset, 8);
    assert_eq!(found[0].byte_length, 3);
    assert_eq!(found[0].text, "Foo");
    assert_eq!(found[0].line_number, None);
}

#[test]
fn line_resolution_by_table_of_line_starts() {
    let matcher = RegexMatcher::new("x", true).unwrap();
    let table: Vec<usize> = vec![0, 5, 12];
    assert_eq!(matcher.find_line_number(&table, 5), Some(2));
    assert_eq!(matcher.find_line_number(&table, 7), Some(2));
    assert_eq!(matcher.find_line_number(&table, 12), Some(3));
    assert_eq!(matcher.find_line_number(&table, 0), Some(1));
    assert_eq!(matcher.find_line_number(&table, 4), Some(1));
    assert_eq!(matcher.find_line_number(&table, 1000), Some(3));
}

#[test]
fn line_resolution_without_a_line() {
    let matcher = RegexMatcher::new("x", true).unwrap();
    let empty: Vec<usize> = Vec::new();
    assert_eq!(matcher.find_line_number(&empty, 0), None);
    assert_eq!(matcher.find_line_number(&empty, 9), None);
    let late: Vec<usize> = vec![5, 10];
    assert_eq!(matcher.find_line_number(&late, 3), None);
    assert_eq!(matcher.find_line_number(&late, 5), Some(1));
}

#[test]
fn line_map_records_the_offset_behind_every_newline() {
    let matcher = RegexMatcher::new("x", true).unwrap();
    assert_eq!(matcher.create_line_map("ab\ncd\n"), vec![0, 3, 6]);
    assert_eq!(matcher.create_line_map(""), vec![0]);
    assert_eq!(matcher.create_line_map("no newline"), vec![0]);
    assert_eq!(matcher.create_line_map("\n\n"), vec![0, 1, 2]);
    assert_eq!(matcher.create_line_map("h\u{e9}\nz"), vec![0, 4]);
}

#[test]
fn line_map_is_strictly_increasing_and_starts_at_zero() {
    let matcher = RegexMatcher::new("x", true).unwrap();
    let table = matcher.create_line_map("one\ntwo\n\nfour\nfive");
    assert_eq!(table[0], 0);
    for pair in table.windows(2) {
        assert!(pair[0] < pair[1]);
    }
    assert_eq!(table, vec![0, 4, 8, 9, 14]);
}

#[test]
fn matches_carry_the_line_on_which_they_start() {
    let matcher = RegexMatcher::new("foo", true).unwrap();
    let text = b"a\nb foo\nfoo and foo";
    let found = matcher.find_matches(text, true);
    assert_eq!(found.len(), 3);
    assert_eq!(found[0].byte_offset, 4);
    assert_eq!(found[0].line_number, Some(2));
    assert_eq!(found[1].byte_offset, 8);
    assert_eq!(found[1].line_number, Some(3));
    assert_eq!(found[2].byte_offset, 16);
    assert_eq!(found[2].line_number, Some(3));
    for m in found.iter() {
        assert_eq!(m.byte_length, 3);
        assert_eq!(m.text, "foo");
        assert_eq!(&text[m.byte_offset..m.byte_offset + m.byte_length], b"foo");
    }
}

#[test]
fn a_match_behind_a_newline_is_on_the_next_line() {
    let matcher = RegexMatcher::new("^x", true).unwrap();
    let found = matcher.find_matches(b"y\nx\nx", true);
    assert_eq!(found.len(), 2);
    assert_eq!(found[0].byte_offset, 2);
    assert_eq!(found[0].line_number, Some(2));
    assert_eq!(found[1].byte_offset, 4);
    assert_eq!(found[1].line_number, Some(3));
}

#[test]
fn the_three_searches_agree() {
    let matcher = RegexMatcher::new("[0-9]+", true).unwrap();
    let texts: Vec<&[u8]> = vec![b"", b"none here", b"1 22 333", b"a1b2c3d4"];
    let counts: Vec<usize> = vec![0, 0, 3, 4];
    for (text, count) in texts.iter().zip(counts.iter()) {
        assert_eq!(matcher.match_count(text), *count);
        assert_eq!(matcher.find_matches(text, false).len(), *count);
        assert_eq!(matcher.is_match(text), *count > 0);
    }
}

#[test]
fn a_buffer_that_is_not_text_holds_no_match() {
    let matcher = RegexMatcher::new("a", true).unwrap();
    let bytes: Vec<u8> = vec![b'a', 0xff, b'a'];
    assert_eq!(matcher.match_count(&bytes), 0);
    assert!(!matcher.is_match(&bytes));
    assert!(matcher.find_matches(&bytes, true).is_empty());
    let cut: Vec<u8> = vec![b'a', 0xc3];
    assert_eq!(matcher.match_count(&cut), 0);
}

#[test]
fn an_invalid_pattern_is_refused_with_its_text() {
    match RegexMatcher::new("(unclosed", true) {
        Ok(_) => panic!("the pattern must not compile"),
        Err(e) => {
            assert_eq!(e.pattern, "(unclosed");
            assert!(!e.reason.is_empty());
            assert_eq!(e.describe(), "Failed to compile regex pattern: (unclosed");
        }
    }
    assert!(RegexMatcher::new("[a-", false).is_err());
    assert!(RegexMatcher::new("ok", false).is_ok());
}

#[test]
fn the_matcher_keeps_its_pattern_and_case_flag() {
    let matcher = RegexMatcher::new("a.c", false).unwrap();
    assert_eq!(matcher.pattern(), "a.c");
    assert!(!matcher.case_sensitive());
    let strict = RegexMatcher::new("xyz", true).unwrap();
    assert_eq!(strict.pattern(), "xyz");
    assert!(strict.case_sensitive());
}

#[test]
fn anchors_match_at_every_line_and_dot_stops_at_a_newline() {
    let anchored = RegexMatcher::new("^foo$", true).unwrap();
    assert_eq!(anchored.match_count(b"x\nfoo\ny\nfoo"), 2);
    let dotted = RegexMatcher::new("a.b", true).unwrap();
    assert_eq!(dotted.match_count(b"a\nb"), 0);
    assert_eq!(dotted.match_count(b"a-b"), 1);
}

#[test]
fn empty_matches_never_touch_the_match_in_front() {
    let matcher = RegexMatcher::new("a*", true).unwrap();
    let found = matcher.find_matches(b"baaa", false);
    let spans: Vec<(usize, usize)> =
        found.iter().map(|m| (m.byte_offset, m.byte_length)).collect();
    assert_eq!(spans, vec![(0, 0), (1, 3)]);
    assert_eq!(matcher.match_count(b"baaa"), 2);
    assert_eq!(matcher.match_count(b""), 1);
    assert!(matcher.is_match(b""));
}

#[test]
fn a_buffer_holds_at_most_one_match_more_than_bytes() {
    let matcher = RegexMatcher::new("", true).unwrap();
    for text in ["", "a", "ab", "abc\n", "h\u{e9}"] {
        assert!(matcher.match_count(text.as_bytes()) <= text.len() + 1);
    }
    assert_eq!(matcher.match_count(b"abc"), 4);
}

#[test]
fn matches_in_text_with_wide_characters_keep_byte_offsets() {
    let matcher = RegexMatcher::new("\u{3b2}+", true).unwrap();
    let text = "Greek: \u{3b1}\u{3b2}\u{3b2}\u{3b3}";
    let found = matcher.find_matches(text.as_bytes(), true);
    assert_eq!(found.len(), 1);
    assert_eq!(found[0].byte_offset, 9);
    assert_eq!(found[0].byte_length, 4);
    assert_eq!(found[0].text, "\u{3b2}\u{3b2}");
    assert_eq!(found[0].line_number, Some(1));
}

#[test]
fn given_spans_become_matches_in_their_order() {
    let matcher = RegexMatcher::new("unused", true).unwrap();
    let text = "ab\ncd\n\u{e9}f";
    let spans: Vec<(usize, usize)> = vec![(0, 2), (3, 3), (4, 5), (6, 8), (9, 9)];
    let found = matcher.collect_matches(text, &spans, true);
    assert_eq!(found.len(), 5);
    let texts: Vec<&str> = found.iter().map(|m| m.text.as_ref()).collect();
    assert_eq!(texts, vec!["ab", "", "d", "\u{e9}", ""]);
    let offsets: Vec<usize> = found.iter().map(|m| m.byte_offset).collect();
    assert_eq!(offsets, vec![0, 3, 4, 6, 9]);
    let lengths: Vec<usize> = found.iter().map(|m| m.byte_length).collect();
    assert_eq!(lengths, vec![2, 0, 1, 2, 0]);
    let lines: Vec<Option<usize>> = found.iter().map(|m| m.line_number).collect();
    assert_eq!(lines, vec![Some(1), Some(2), Some(2), Some(3), Some(3)]);
    let plain = matcher.collect_matches(text, &spans, false);
    assert!(plain.iter().all(|m| m.line_number.is_none()));
    assert!(matcher.collect_matches(text, &[], true).is_empty());
}
