//! The line index of a text buffer: the table of the offsets at which its
//! lines start, and the resolution of an offset to a line number.

use vstd::prelude::*;
use crate::utf8::NEWLINE;

verus! {

/// The number of newline bytes among the first `offset` bytes of a buffer.
pub open spec fn newlines_before(bytes: Seq<u8>, offset: int) -> nat
    decreases offset,
{
    if offset <= 0 {
        0
    } else if offset - 1 < bytes.len() && bytes[offset - 1] == NEWLINE {
        newlines_before(bytes, offset - 1) + 1
    } else {
        newlines_before(bytes, offset - 1)
    }
}

/// The line starts among the first `n` bytes of a buffer: offset 0, and the
/// offset behind every newline, in ascending order.
pub open spec fn line_starts_upto(bytes: Seq<u8>, n: int) -> Seq<usize>
    decreases n,
{
    if n <= 0 {
        seq![0usize]
    } else if bytes[n - 1] == NEWLINE {
        line_starts_upto(bytes, n - 1).push(n as usize)
    } else {
        line_starts_upto(bytes, n - 1)
    }
}

/// The line starts of a whole buffer.
pub open spec fn line_starts(bytes: Seq<u8>) -> Seq<usize> {
    line_starts_upto(bytes, bytes.len() as int)
}

/// A table whose entries never go down from one to the next.
pub open spec fn ascending(table: Seq<usize>) -> bool {
    forall|i: int, j: int| 0 <= i <= j < table.len() ==> table[i] <= table[j]
}

/// A table whose entries go up from each one to the next.
pub open spec fn strictly_ascending(table: Seq<usize>) -> bool {
    forall|i: int, j: int| 0 <= i < j < table.len() ==> table[i] < table[j]
}

/// The number of entries of a table that are at or before an offset.
pub open spec fn starts_at_or_before(table: Seq<usize>, offset: int) -> nat
    decreases table.len(),
{
    if table.len() == 0 {
        0
    } else if table.last() <= offset {
        starts_at_or_before(table.drop_last(), offset) + 1
    } else {
        starts_at_or_before(table.drop_last(), offset)
    }
}

/// The 1-based line of an offset by a table of line starts: the number of
/// starts at or before it, and no line where there is none.
pub open spec fn resolve_line(table: Seq<usize>, offset: int) -> Option<usize> {
    let rank = starts_at_or_before(table, offset);
    if rank == 0 {
        None
    } else {
        Some(rank as usize)
    }
}

/// In an ascending table, a position that parts the entries at or before an
/// offset from those behind it is the number of the former.
pub proof fn lemma_rank_is_split_point(table: Seq<usize>, offset: int, k: int)
    requires
        0 <= k <= table.len(),
        forall|i: int| 0 <= i < k ==> table[i] <= offset,
        forall|i: int| k <= i < table.len() ==> table[i] > offset,
    ensures
        starts_at_or_before(table, offset) == k,
    decreases table.len(),
{
    if table.len() > 0 {
        let front = table.drop_last();
        if k == table.len() {
            lemma_rank_is_split_point(front, offset, k - 1);
        } else {
            lemma_rank_is_split_point(front, offset, k);
        }
    }
}

/// What the line starts among the first `n` bytes look like: the first is 0,
/// they go strictly up, none lies behind `n`, and the number of them at or
/// before an offset is one more than the newlines in front of that offset.
pub proof fn lemma_line_starts_upto(bytes: Seq<u8>, n: int, offset: int)
    requires
        0 <= n <= bytes.len() <= usize::MAX,
        0 <= offset,
    ensures
        line_starts_upto(bytes, n).len() == newlines_before(bytes, n) + 1,
        line_starts_upto(bytes, n)[0] == 0,
        strictly_ascending(line_starts_upto(bytes, n)),
        forall|i: int| 0 <= i < line_starts_upto(bytes, n).len() ==> line_starts_upto(bytes, n)[i] <= n,
        starts_at_or_before(line_starts_upto(bytes, n), offset) == newlines_before(
            bytes,
            if offset < n {
                offset
            } else {
                n
            },
        ) + 1,
    decreases n,
{
    if n <= 0 {
        let table = line_starts_upto(bytes, n);
        assert(table.drop_last().len() == 0);
        assert(starts_at_or_before(table.drop_last(), offset) == 0);
    } else {
        lemma_line_starts_upto(bytes, n - 1, offset);
        let front = line_starts_upto(bytes, n - 1);
        if bytes[n - 1] == NEWLINE {
            let table = front.push(n as usize);
            assert(table.drop_last() == front);
            assert(table.last() == n);
        }
    }
}

/// In the line index of a buffer, the number of line starts at or before an
/// offset inside the buffer is one more than the number of newlines in front
/// of that offset.
pub proof fn lemma_line_of_offset(bytes: Seq<u8>, offset: int)
    requires
        bytes.len() <= usize::MAX,
        0 <= offset <= bytes.len(),
    ensures
        starts_at_or_before(line_starts(bytes), offset) == newlines_before(bytes, offset) + 1,
        starts_at_or_before(line_starts(bytes), offset) <= line_starts(bytes).len(),
{
    lemma_line_starts_upto(bytes, bytes.len() as int, offset);
    lemma_newlines_monotone(bytes, offset, bytes.len() as int);
}

/// A longer prefix holds at least as many newlines as a shorter one.
pub proof fn lemma_newlines_monotone(bytes: Seq<u8>, shorter: int, longer: int)
    requires
        shorter <= longer,
    ensures
        newlines_before(bytes, shorter) <= newlines_before(bytes, longer),
    decreases longer - shorter,
{
    if shorter < longer {
        lemma_newlines_monotone(bytes, shorter, longer - 1);
    }
}

/// Among the first `n` bytes, an offset is a line start exactly when it is
/// 0 or lies behind a newline.
proof fn lemma_line_starts_upto_cover(bytes: Seq<u8>, n: int, offset: usize)
    requires
        0 <= n <= bytes.len() <= usize::MAX,
    ensures
        line_starts_upto(bytes, n).contains(offset) <==> offset == 0 || (0 < offset <= n
            && bytes[offset - 1] == NEWLINE),
    decreases n,
{
    let table = line_starts_upto(bytes, n);
    if n <= 0 {
        assert(table[0] == 0);
    } else {
        lemma_line_starts_upto_cover(bytes, n - 1, offset);
        let front = line_starts_upto(bytes, n - 1);
        if bytes[n - 1] == NEWLINE {
            assert(table == front.push(n as usize));
            assert(table[table.len() - 1] == n);
            if front.contains(offset) {
                let i = choose|i: int| 0 <= i < front.len() && front[i] == offset;
                assert(table[i] == offset);
            }
            if table.contains(offset) {
                let i = choose|i: int| 0 <= i < table.len() && table[i] == offset;
                if i < front.len() {
                    assert(front[i] == offset);
                }
            }
        }
    }
}

/// The line index covers the line starts of its buffer and nothing else: an
/// offset is in the table exactly when it is 0 or lies behind a newline.
pub proof fn lemma_line_starts_cover(bytes: Seq<u8>, offset: usize)
    requires
        bytes.len() <= usize::MAX,
    ensures
        line_starts(bytes).contains(offset) <==> offset == 0 || (0 < offset <= bytes.len()
            && bytes[offset - 1] == NEWLINE),
{
    lemma_line_starts_upto_cover(bytes, bytes.len() as int, offset);
}

} // verus!
