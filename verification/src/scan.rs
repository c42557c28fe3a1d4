//! The per-file processor: a file smaller than the chunk size is matched in
//! one pass over its whole content, any other file chunk by chunk.
//!
//! Chunks are cut at byte offsets, with no overlap and no regard for lines or
//! matches. A match whose bytes lie on both sides of a cut is therefore not
//! found in chunked mode; this limitation is kept on purpose and is part of
//! what the contracts below state.

use vstd::prelude::*;
use crate::matcher::{pattern_count, RegexMatcher};
use crate::reader::{chunk_len, chunk_slice, clamp_chunk};

verus! {

/// What processing one file gave: the number of matches and of bytes.
#[derive(Debug, Clone, Copy, PartialEq, Eq, Structural)]
pub struct FileResult {
    pub matches: usize,
    pub bytes_processed: usize,
}

/// The outcome of one file as numbers without a bound.
pub struct Outcome {
    pub matches: nat,
    pub bytes: nat,
}

impl View for FileResult {
    type V = Outcome;

    open spec fn view(&self) -> Outcome {
        Outcome { matches: self.matches as nat, bytes: self.bytes_processed as nat }
    }
}

/// What the processor needs next from whoever reads the file.
#[derive(Debug, Clone, Copy, PartialEq, Eq, Structural)]
pub enum ScanAction {
    /// The whole content of the file.
    ReadAll,
    /// The chunk of at most `size` bytes at `offset`.
    ReadChunk { offset: usize, size: usize },
    /// Nothing: the file is done, with this result.
    Done(FileResult),
}

/// The state of the processor on one file.
pub struct ScanView {
    pub file_size: usize,
    pub chunk_size: usize,
    pub offset: usize,
    pub matches: usize,
    pub bytes_processed: usize,
    pub finished: bool,
}

/// The number of matches found chunk by chunk from `offset` to the end of a
/// content: the sum, over the chunks in order, of the matches in each chunk
/// taken by itself.
pub open spec fn chunked_count(
    pattern: Seq<char>,
    case_sensitive: bool,
    content: Seq<u8>,
    chunk_size: int,
    offset: int,
) -> nat
    decreases content.len() - offset,
{
    if offset < 0 || offset >= content.len() || chunk_size <= 0 {
        0
    } else {
        let len = chunk_len(content.len() as int, offset, chunk_size);
        pattern_count(pattern, case_sensitive, content.subrange(offset, offset + len))
            + chunked_count(pattern, case_sensitive, content, chunk_size, offset + len)
    }
}

/// The number of matches that the processor reports for a file of the given
/// content: those of the whole content where it is smaller than the chunk
/// size, and those found chunk by chunk otherwise.
pub open spec fn file_count(
    pattern: Seq<char>,
    case_sensitive: bool,
    content: Seq<u8>,
    chunk_size: int,
) -> nat {
    if content.len() < chunk_size {
        pattern_count(pattern, case_sensitive, content)
    } else {
        chunked_count(pattern, case_sensitive, content, chunk_size, 0)
    }
}

/// The outcome that the processor reports for a file of the given content:
/// its matches by `file_count`, and all its bytes.
pub open spec fn file_outcome(
    pattern: Seq<char>,
    case_sensitive: bool,
    content: Seq<u8>,
    chunk_size: int,
) -> Outcome {
    Outcome {
        matches: file_count(pattern, case_sensitive, content, chunk_size),
        bytes: content.len(),
    }
}

impl ScanView {
    /// Whether the file is read and matched in one piece.
    pub open spec fn whole_file(self) -> bool {
        self.file_size < self.chunk_size
    }

    /// The state in which the processor starts on a file. A file that is read
    /// in chunks and is empty is done at once.
    pub open spec fn start(file_size: usize, chunk_size: usize) -> ScanView {
        if file_size < chunk_size {
            ScanView {
                file_size,
                chunk_size,
                offset: 0,
                matches: 0,
                bytes_processed: 0,
                finished: false,
            }
        } else {
            ScanView {
                file_size,
                chunk_size,
                offset: 0,
                matches: 0,
                bytes_processed: file_size,
                finished: file_size == 0,
            }
        }
    }

    /// What the processor asks for in this state.
    pub open spec fn next(self) -> ScanAction {
        if self.finished {
            ScanAction::Done(
                FileResult { matches: self.matches, bytes_processed: self.bytes_processed },
            )
        } else if self.whole_file() {
            ScanAction::ReadAll
        } else {
            ScanAction::ReadChunk { offset: self.offset, size: self.chunk_size }
        }
    }

    /// Whether `len` bytes can be the answer to what the processor asked
    /// for: any number for the whole file, and for a chunk no more than were
    /// asked for and than the file has left.
    pub open spec fn admits(self, len: nat) -> bool {
        &&& !self.finished
        &&& !self.whole_file() ==> len <= chunk_len(
            self.file_size as int,
            self.offset as int,
            self.chunk_size as int,
        )
    }

    /// The step from this state to `next` when `len` bytes have come that
    /// hold `count` matches. The whole content ends the file with its own
    /// count. An empty chunk ends the file; any other chunk adds its matches
    /// and moves the offset on by its length, and the file ends when the
    /// offset reaches its size.
    pub open spec fn steps_to(self, next: ScanView, len: nat, count: nat) -> bool {
        &&& next.file_size == self.file_size
        &&& next.chunk_size == self.chunk_size
        &&& if self.whole_file() {
            &&& next.offset == self.offset
            &&& next.matches == count
            &&& next.bytes_processed == len
            &&& next.finished
        } else if len == 0 {
            &&& next.offset == self.offset
            &&& next.matches == self.matches
            &&& next.bytes_processed == self.bytes_processed
            &&& next.finished
        } else {
            &&& next.offset == self.offset + len
            &&& next.matches == self.matches + count
            &&& next.bytes_processed == self.bytes_processed
            &&& next.finished == (self.offset + len >= self.file_size)
        }
    }
}

/// The processor of one file. It never reads: it says what it needs next, and
/// is handed the bytes.
pub struct FileScan {
    file_size: usize,
    chunk_size: usize,
    offset: usize,
    matches: usize,
    bytes_processed: usize,
    finished: bool,
}

impl View for FileScan {
    type V = ScanView;

    closed spec fn view(&self) -> ScanView {
        ScanView {
            file_size: self.file_size,
            chunk_size: self.chunk_size,
            offset: self.offset,
            matches: self.matches,
            bytes_processed: self.bytes_processed,
            finished: self.finished,
        }
    }
}

impl FileScan {
    /// In chunked mode the offset stays inside the file, and there are at
    /// most two matches for every byte read so far; twice the file size fits
    /// the counter.
    #[verifier::type_invariant]
    spec fn counters_fit(self) -> bool {
        self.file_size >= self.chunk_size ==> {
            &&& self.offset <= self.file_size
            &&& self.matches <= 2 * self.offset
            &&& 2 * self.file_size <= usize::MAX
        }
    }

    /// Start on a file of `file_size` bytes with chunks of `chunk_size` bytes.
    pub fn new(file_size: usize, chunk_size: usize) -> (scan: FileScan)
        requires
            2 * file_size <= usize::MAX,
        ensures
            scan@ == ScanView::start(file_size, chunk_size),
    {
        if file_size < chunk_size {
            FileScan {
                file_size,
                chunk_size,
                offset: 0,
                matches: 0,
                bytes_processed: 0,
                finished: false,
            }
        } else {
            FileScan {
                file_size,
                chunk_size,
                offset: 0,
                matches: 0,
                bytes_processed: file_size,
                finished: file_size == 0,
            }
        }
    }

    /// What to read next, or the result of the file.
    pub fn next_action(&self) -> (action: ScanAction)
        ensures
            action == self@.next(),
    {
        if self.finished {
            ScanAction::Done(
                FileResult { matches: self.matches, bytes_processed: self.bytes_processed },
            )
        } else if self.file_size < self.chunk_size {
            ScanAction::ReadAll
        } else {
            ScanAction::ReadChunk { offset: self.offset, size: self.chunk_size }
        }
    }

    /// Whether `len` bytes can be handed over as the answer to the last
    /// action.
    pub fn accepts(&self, len: usize) -> (ok: bool)
        ensures
            ok == self@.admits(len as nat),
    {
        if self.finished {
            false
        } else if self.file_size < self.chunk_size {
            true
        } else {
            len <= clamp_chunk(self.file_size as u64, self.offset, self.chunk_size)
        }
    }

    /// Take the bytes that the last action asked for, and count the matches
    /// in them.
    pub fn accept(&mut self, matcher: &RegexMatcher, bytes: &[u8])
        requires
            old(self)@.admits(bytes@.len()),
        ensures
            old(self)@.steps_to(
                final(self)@,
                bytes@.len(),
                pattern_count(matcher@.pattern, matcher@.case_sensitive, bytes@),
            ),
            final(self)@.matches <= old(self)@.matches + bytes@.len() + 1,
    {
        let count = if bytes.len() == 0 && self.chunk_size <= self.file_size {
            0
        } else {
            matcher.match_count(bytes)
        };
        self.advance(bytes.len(), count);
    }

    /// Move on by `len` bytes that hold `count` matches. An empty chunk ends
    /// the file whatever the count.
    pub fn advance(&mut self, len: usize, count: usize)
        requires
            old(self)@.admits(len as nat),
            count <= len + 1,
        ensures
            old(self)@.steps_to(final(self)@, len as nat, count as nat),
    {
        proof {
            use_type_invariant(&*self);
        }
        if self.file_size < self.chunk_size {
            self.matches = count;
            self.bytes_processed = len;
            self.finished = true;
        } else if len == 0 {
            self.finished = true;
        } else {
            self.offset = self.offset + len;
            self.matches = self.matches + count;
            self.finished = self.offset >= self.file_size;
        }
    }
}

/// Process a file whose content is in memory: match the whole content in one
/// pass where it is smaller than the chunk size, and chunk by chunk
/// otherwise. All bytes count as processed, and there are at most two
/// matches for every byte, and one more.
pub fn process_file(content: &[u8], matcher: &RegexMatcher, chunk_size: usize) -> (result:
    FileResult)
    requires
        2 * content@.len() <= usize::MAX,
    ensures
        result@ == file_outcome(
            matcher@.pattern,
            matcher@.case_sensitive,
            content@,
            chunk_size as int,
        ),
        result.matches <= 2 * content@.len() + 1,
{
    let size = content.len();
    let mut scan = FileScan::new(size, chunk_size);
    loop
        invariant
            size == content@.len(),
            scan@.file_size == size,
            scan@.chunk_size == chunk_size,
            scan@.whole_file() && !scan@.finished ==> scan@ == ScanView::start(size, chunk_size),
            scan@.whole_file() && scan@.finished ==> scan@.matches == pattern_count(
                matcher@.pattern,
                matcher@.case_sensitive,
                content@,
            ) && scan@.bytes_processed == size && scan@.matches <= size + 1,
            !scan@.whole_file() ==> {
                &&& scan@.bytes_processed == size
                &&& scan@.offset <= size
                &&& scan@.matches + chunked_count(
                    matcher@.pattern,
                    matcher@.case_sensitive,
                    content@,
                    chunk_size as int,
                    scan@.offset as int,
                ) == chunked_count(
                    matcher@.pattern,
                    matcher@.case_sensitive,
                    content@,
                    chunk_size as int,
                    0,
                )
                &&& scan@.finished ==> chunked_count(
                    matcher@.pattern,
                    matcher@.case_sensitive,
                    content@,
                    chunk_size as int,
                    scan@.offset as int,
                ) == 0
            },
        decreases
                (if scan@.finished {
                    0
                } else {
                    1 + size - scan@.offset
                }),
    {
        match scan.next_action() {
            ScanAction::Done(result) => {
                proof {
                    use_type_invariant(&scan);
                }
                return result;
            },
            ScanAction::ReadAll => {
                scan.accept(matcher, content);
            },
            ScanAction::ReadChunk { offset, size: wanted } => {
                let chunk = chunk_slice(content, size as u64, offset, wanted);
                scan.accept(matcher, chunk);
            },
        }
    }
}

/// The cut behind the `k`-th chunk of a content loses and adds nothing: the
/// content from the start of that chunk on holds as many matches as the
/// chunk and the content behind it hold together.
pub open spec fn cut_is_clean(
    pattern: Seq<char>,
    case_sensitive: bool,
    content: Seq<u8>,
    chunk_size: int,
    k: int,
) -> bool {
    let from = k * chunk_size;
    let cut = (k + 1) * chunk_size;
    let end = content.len() as int;
    pattern_count(pattern, case_sensitive, content.subrange(from, end)) == pattern_count(
        pattern,
        case_sensitive,
        content.subrange(from, cut),
    ) + pattern_count(pattern, case_sensitive, content.subrange(cut, end))
}

/// Every cut that falls inside the content is clean.
pub open spec fn cuts_are_clean(
    pattern: Seq<char>,
    case_sensitive: bool,
    content: Seq<u8>,
    chunk_size: int,
) -> bool {
    forall|k: int|
        0 <= k && (k + 1) * chunk_size < content.len() ==> #[trigger] cut_is_clean(
            pattern,
            case_sensitive,
            content,
            chunk_size,
            k,
        )
}

/// Where every cut from the `k`-th on is clean, the chunks from the `k`-th on
/// hold together as many matches as the content from there on holds in one
/// piece.
proof fn lemma_chunks_from(
    pattern: Seq<char>,
    case_sensitive: bool,
    content: Seq<u8>,
    chunk_size: int,
    k: int,
)
    requires
        chunk_size >= 1,
        0 <= k,
        k * chunk_size < content.len(),
        cuts_are_clean(pattern, case_sensitive, content, chunk_size),
    ensures
        chunked_count(pattern, case_sensitive, content, chunk_size, k * chunk_size)
            == pattern_count(
            pattern,
            case_sensitive,
            content.subrange(k * chunk_size, content.len() as int),
        ),
    decreases content.len() - k * chunk_size,
{
    let from = k * chunk_size;
    let cut = (k + 1) * chunk_size;
    let end = content.len() as int;
    assert(cut == from + chunk_size) by (nonlinear_arith)
        requires
            from == k * chunk_size,
            cut == (k + 1) * chunk_size,
    ;
    assert(from >= 0) by (nonlinear_arith)
        requires
            from == k * chunk_size,
            k >= 0,
            chunk_size >= 1,
    ;
    if cut < end {
        assert(cut_is_clean(pattern, case_sensitive, content, chunk_size, k));
        lemma_chunks_from(pattern, case_sensitive, content, chunk_size, k + 1);
    } else {
        assert(chunked_count(pattern, case_sensitive, content, chunk_size, end) == 0);
    }
}

/// Chunked mode agrees with whole-file mode wherever no cut changes what is
/// found: for a chunk size of at least one byte whose cuts are all clean, the
/// processor reports as many matches as the whole content holds.
pub proof fn lemma_clean_cuts_count_whole(
    pattern: Seq<char>,
    case_sensitive: bool,
    content: Seq<u8>,
    chunk_size: int,
)
    requires
        chunk_size >= 1,
        cuts_are_clean(pattern, case_sensitive, content, chunk_size),
    ensures
        file_count(pattern, case_sensitive, content, chunk_size) == pattern_count(
            pattern,
            case_sensitive,
            content,
        ),
{
    if content.len() >= chunk_size {
        assert(0 * chunk_size == 0);
        lemma_chunks_from(pattern, case_sensitive, content, chunk_size, 0);
        assert(content.subrange(0, content.len() as int) == content);
    }
}

/// Chunk-size invariance: two chunk sizes whose cuts are all clean give the
/// same number of matches for a content.
pub proof fn lemma_chunk_size_invariance(
    pattern: Seq<char>,
    case_sensitive: bool,
    content: Seq<u8>,
    first_size: int,
    second_size: int,
)
    requires
        first_size >= 1,
        second_size >= 1,
        cuts_are_clean(pattern, case_sensitive, content, first_size),
        cuts_are_clean(pattern, case_sensitive, content, second_size),
    ensures
        file_count(pattern, case_sensitive, content, first_size) == file_count(
            pattern,
            case_sensitive,
            content,
            second_size,
        ),
{
    lemma_clean_cuts_count_whole(pattern, case_sensitive, content, first_size);
    lemma_clean_cuts_count_whole(pattern, case_sensitive, content, second_size);
}

/// A chunk size that is no smaller than the content cuts nothing: the
/// processor then reports the matches of the whole content, whatever the
/// chunk size is.
pub proof fn lemma_single_chunk_counts_whole(
    pattern: Seq<char>,
    case_sensitive: bool,
    content: Seq<u8>,
    chunk_size: int,
)
    requires
        chunk_size >= 1,
        chunk_size >= content.len(),
    ensures
        file_count(pattern, case_sensitive, content, chunk_size) == pattern_count(
            pattern,
            case_sensitive,
            content,
        ),
{
    assert forall|k: int| 0 <= k && (k + 1) * chunk_size < content.len() implies #[trigger] cut_is_clean(
        pattern,
        case_sensitive,
        content,
        chunk_size,
        k,
    ) by {
        assert((k + 1) * chunk_size >= chunk_size) by (nonlinear_arith)
            requires
                k >= 0,
                chunk_size >= 1,
        ;
    }
    lemma_clean_cuts_count_whole(pattern, case_sensitive, content, chunk_size);
}

} // verus!
