//! Text helpers: the lines around a match, and sizes in words.

use std::borrow::Cow;
use vstd::prelude::*;
use vstd::string::*;
use vstd::utf8::*;
use crate::output::{decimal, decimal_digits, digit_char, digit_text};
use crate::utf8::{lemma_ascii_is_bounded, str_range, NEWLINE};

verus! {

/// The start of the line that reaches up to `pos`: the offset behind the last
/// newline in front of `pos`, or 0 where there is none.
pub open spec fn line_start(bytes: Seq<u8>, pos: int) -> int
    decreases pos,
{
    if pos <= 0 {
        0
    } else if bytes[pos - 1] == NEWLINE {
        pos
    } else {
        line_start(bytes, pos - 1)
    }
}

/// The end of the line that begins at or before `pos`: the offset of the
/// first newline at or behind `pos`, or the length where there is none.
pub open spec fn line_end(bytes: Seq<u8>, pos: int) -> int
    decreases bytes.len() - pos,
{
    if pos >= bytes.len() {
        bytes.len() as int
    } else if bytes[pos] == NEWLINE {
        pos
    } else {
        line_end(bytes, pos + 1)
    }
}

/// The start of the line that lies `lines` lines above the line starting at
/// `start`, or of the first line where there are fewer above.
pub open spec fn context_start(bytes: Seq<u8>, start: int, lines: nat) -> int
    decreases lines,
{
    if lines == 0 || start <= 0 {
        start
    } else {
        context_start(bytes, line_start(bytes, start - 1), (lines - 1) as nat)
    }
}

/// The end of the line that lies `lines` lines below the line ending at
/// `end`, or of the last line where there are fewer below.
pub open spec fn context_end(bytes: Seq<u8>, end: int, lines: nat) -> int
    decreases lines,
{
    if lines == 0 || end >= bytes.len() {
        end
    } else {
        context_end(bytes, line_end(bytes, end + 1), (lines - 1) as nat)
    }
}

/// The span of text that is shown for a match: the match itself without
/// context, and otherwise the lines that the match touches together with
/// `context_lines` lines above and below them.
pub open spec fn context_span(
    bytes: Seq<u8>,
    match_start: int,
    match_end: int,
    context_lines: nat,
) -> (int, int) {
    if context_lines == 0 {
        (match_start, match_end)
    } else {
        (
            context_start(bytes, line_start(bytes, match_start), context_lines),
            context_end(bytes, line_end(bytes, match_end), context_lines),
        )
    }
}

/// Find the start of the line that reaches up to `pos`.
fn find_line_start(bytes: &[u8], pos: usize) -> (start: usize)
    requires
        pos <= bytes@.len(),
    ensures
        start == line_start(bytes@, pos as int),
        start <= pos,
        start == 0 || bytes@[start - 1] == NEWLINE,
{
    let mut start = pos;
    while start > 0 && bytes[start - 1] != NEWLINE
        invariant
            start <= pos <= bytes@.len(),
            line_start(bytes@, pos as int) == line_start(bytes@, start as int),
        decreases start,
    {
        start -= 1;
    }
    start
}

/// Find the end of the line that begins at or before `pos`.
fn find_line_end(bytes: &[u8], pos: usize) -> (end: usize)
    requires
        pos <= bytes@.len(),
    ensures
        end == line_end(bytes@, pos as int),
        pos <= end <= bytes@.len(),
        end == bytes@.len() || bytes@[end as int] == NEWLINE,
{
    let mut end = pos;
    while end < bytes.len() && bytes[end] != NEWLINE
        invariant
            pos <= end <= bytes@.len(),
            line_end(bytes@, pos as int) == line_end(bytes@, end as int),
        decreases bytes@.len() - end,
    {
        end += 1;
    }
    end
}

/// Extract a line containing the match with optional context: with no
/// context lines the match alone, and otherwise the lines that the match
/// touches with up to `context_lines` lines above and below.
pub fn extract_context<'a>(
    text: &'a str,
    match_start: usize,
    match_end: usize,
    context_lines: usize,
) -> (context: Cow<'a, str>)
    requires
        match_start <= match_end <= text.spec_bytes().len(),
        is_char_boundary(text.spec_bytes(), match_start as int),
        is_char_boundary(text.spec_bytes(), match_end as int),
    ensures
        ({
            let span = context_span(
                text.spec_bytes(),
                match_start as int,
                match_end as int,
                context_lines as nat,
            );
            &&& 0 <= span.0 <= match_start
            &&& match_end <= span.1 <= text.spec_bytes().len()
            &&& context@ == decode_utf8(text.spec_bytes().subrange(span.0, span.1))
        }),
{
    if context_lines == 0 {
        return Cow::Borrowed(str_range(text, match_start, match_end));
    }
    let bytes = text.as_bytes();
    let first_start = find_line_start(bytes, match_start);
    let first_end = find_line_end(bytes, match_end);

    let mut start = first_start;
    let mut lines_before: usize = 0;
    while lines_before < context_lines && start > 0
        invariant
            bytes@ == text.spec_bytes(),
            lines_before <= context_lines,
            start <= match_start <= bytes@.len(),
            start == 0 || bytes@[start - 1] == NEWLINE,
            context_start(bytes@, first_start as int, context_lines as nat) == context_start(
                bytes@,
                start as int,
                (context_lines - lines_before) as nat,
            ),
        decreases context_lines - lines_before,
    {
        start = find_line_start(bytes, start - 1);
        lines_before += 1;
    }

    let mut end = first_end;
    let mut lines_after: usize = 0;
    while lines_after < context_lines && end < bytes.len()
        invariant
            bytes@ == text.spec_bytes(),
            lines_after <= context_lines,
            match_end <= end <= bytes@.len(),
            end == bytes@.len() || bytes@[end as int] == NEWLINE,
            context_end(bytes@, first_end as int, context_lines as nat) == context_end(
                bytes@,
                end as int,
                (context_lines - lines_after) as nat,
            ),
        decreases context_lines - lines_after,
    {
        end = find_line_end(bytes, end + 1);
        lines_after += 1;
    }

    proof {
        encode_utf8_valid_utf8(text@);
        if start > 0 {
            lemma_ascii_is_bounded(bytes@, start - 1);
        }
        if end < bytes@.len() {
            lemma_ascii_is_bounded(bytes@, end as int);
        } else {
            is_char_boundary_start_end_of_seq(bytes@);
        }
    }
    Cow::Borrowed(str_range(text, start, end))
}

/// The bytes of a kilobyte.
pub const KB: usize = 1024;

/// The bytes of a megabyte.
pub const MB: usize = 1048576;

/// The bytes of a gigabyte.
pub const GB: usize = 1073741824;

/// Up to this number, two to the power of 53, every whole number can be
/// held in a double-precision float.
pub const EXACT_LIMIT: u128 = 9007199254740992;

/// `value` in units of `unit`, rounded to the nearest whole number, and to
/// the even one of the two where it lies half way between them.
pub open spec fn round_half_even(value: nat, unit: nat) -> nat {
    let whole = value / unit;
    let rest = value % unit;
    if 2 * rest > unit || (2 * rest == unit && whole % 2 == 1) {
        whole + 1
    } else {
        whole
    }
}

/// The distance between neighbouring doubles around `value`, found by
/// doubling `unit` at most `steps` times: the least such distance at which
/// `value` has no more than 53 binary digits.
pub open spec fn double_spacing(value: nat, unit: nat, steps: nat) -> nat
    decreases steps,
{
    if steps == 0 || value < EXACT_LIMIT * unit {
        unit
    } else {
        double_spacing(value, 2 * unit, (steps - 1) as nat)
    }
}

/// The double-precision float nearest to a whole number below two to the
/// power of 64, as a whole number.
pub open spec fn nearest_double(value: nat) -> nat {
    let unit = double_spacing(value, 1, 11);
    round_half_even(value, unit) * unit
}

/// A size in hundredths of `unit`: the nearest double of the size, divided
/// by the unit and rounded to two decimal places.
pub open spec fn hundredths(size: nat, unit: nat) -> nat {
    round_half_even(nearest_double(size) * 100, unit)
}

/// A number of hundredths written with two decimal places.
pub open spec fn fixed_text(amount: nat) -> Seq<char> {
    decimal_digits(amount / 100) + "."@ + seq![
        digit_char((amount % 100 / 10) as int),
        digit_char((amount % 10) as int),
    ]
}

/// A byte size in words: in gigabytes, megabytes or kilobytes with two
/// decimal places from 1024 bytes on, and in bytes below.
pub open spec fn size_text(size: nat) -> Seq<char> {
    if size >= GB {
        fixed_text(hundredths(size, GB as nat)) + " GB"@
    } else if size >= MB {
        fixed_text(hundredths(size, MB as nat)) + " MB"@
    } else if size >= KB {
        fixed_text(hundredths(size, KB as nat)) + " KB"@
    } else {
        decimal_digits(size) + " B"@
    }
}

/// Round `value` in units of `unit` to the nearest whole number, half way
/// to the even one.
fn round_to_unit(value: u128, unit: u128) -> (rounded: u128)
    requires
        0 < unit <= 0x4000_0000,
        value <= 0x1_0000_0000_0000_0000_0000,
    ensures
        rounded == round_half_even(value as nat, unit as nat),
        rounded <= value / unit + 1,
{
    let whole = value / unit;
    let rest = value % unit;
    if 2 * rest > unit || (2 * rest == unit && whole % 2 == 1) {
        whole + 1
    } else {
        whole
    }
}

/// The spacing that is reached when `steps` of the eleven doublings are
/// left.
spec fn spacing_with_left(steps: int) -> int {
    if steps >= 11 {
        1
    } else if steps == 10 {
        2
    } else if steps == 9 {
        4
    } else if steps == 8 {
        8
    } else if steps == 7 {
        16
    } else if steps == 6 {
        32
    } else if steps == 5 {
        64
    } else if steps == 4 {
        128
    } else if steps == 3 {
        256
    } else if steps == 2 {
        512
    } else if steps == 1 {
        1024
    } else {
        2048
    }
}

/// The double nearest to a whole number that fits 64 bits.
fn to_nearest_double(value: u128) -> (nearest: u128)
    requires
        value < 0x1_0000_0000_0000_0000,
    ensures
        nearest == nearest_double(value as nat),
        nearest <= 0x1_0000_0000_0000_0000,
{
    let mut unit: u128 = 1;
    let mut steps: u32 = 11;
    while steps > 0 && value >= EXACT_LIMIT * unit
        invariant
            steps <= 11,
            unit == spacing_with_left(steps as int),
            value < 0x1_0000_0000_0000_0000,
            double_spacing(value as nat, 1, 11) == double_spacing(
                value as nat,
                unit as nat,
                steps as nat,
            ),
        decreases steps,
    {
        unit = unit * 2;
        steps = steps - 1;
    }
    let whole = round_to_unit(value, unit);
    assert(value / unit < EXACT_LIMIT) by (nonlinear_arith)
        requires
            value < EXACT_LIMIT * unit,
            unit > 0,
    ;
    assert(whole * unit <= 0x1_0000_0000_0000_0000) by (nonlinear_arith)
        requires
            0 <= whole <= 9007199254740992,
            0 < unit <= 2048,
    ;
    whole * unit
}

/// Write a size in units of `unit` with two decimal places.
fn scaled(size: usize, unit: usize) -> (text: String)
    requires
        0 < unit <= 0x4000_0000,
    ensures
        text@ == fixed_text(hundredths(size as nat, unit as nat)),
{
    let nearest = to_nearest_double(size as u128);
    let amount = round_to_unit(nearest * 100, unit as u128);
    let mut text = decimal(amount / 100);
    text.append(".");
    text.append(digit_text(amount % 100 / 10));
    text.append(digit_text(amount % 10));
    proof {
        assert(seq![digit_char((amount % 100 / 10) as int)] + seq![
            digit_char((amount % 10) as int),
        ] =~= seq![digit_char((amount % 100 / 10) as int), digit_char((amount % 10) as int)]);
    }
    text
}

/// Format a byte size as a human-readable string.
pub fn format_size(size: usize) -> (text: String)
    ensures
        text@ == size_text(size as nat),
{
    if size >= GB {
        let mut text = scaled(size, GB);
        text.append(" GB");
        text
    } else if size >= MB {
        let mut text = scaled(size, MB);
        text.append(" MB");
        text
    } else if size >= KB {
        let mut text = scaled(size, KB);
        text.append(" KB");
        text
    } else {
        let mut text = decimal(size as u128);
        text.append(" B");
        text
    }
}

} // verus!
