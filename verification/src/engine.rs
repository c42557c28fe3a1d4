//! The search coordinator's arithmetic: the running totals of a search, and
//! how the outcome of each file enters them.

use vstd::prelude::*;
use vstd::seq_lib::*;
use crate::cli::Args;
use crate::matcher::{compiled, pattern_count, PatternError, RegexMatcher};
use crate::scan::{
    cuts_are_clean, file_outcome, lemma_clean_cuts_count_whole, process_file, FileResult, Outcome,
};

verus! {

/// The totals of a search as numbers without a bound.
pub struct Tally {
    pub matches: nat,
    pub files_searched: nat,
    pub files_with_matches: nat,
    pub bytes: nat,
}

impl Tally {
    /// The totals before any file.
    pub open spec fn zero() -> Tally {
        Tally { matches: 0, files_searched: 0, files_with_matches: 0, bytes: 0 }
    }

    /// The totals with one more file: a file that failed leaves them as they
    /// are; any other file counts as searched, adds its matches and its
    /// bytes, and counts as a file with matches where it has at least one.
    pub open spec fn plus(self, outcome: Option<Outcome>) -> Tally {
        match outcome {
            None => self,
            Some(file) => Tally {
                matches: self.matches + file.matches,
                files_searched: self.files_searched + 1,
                files_with_matches: if file.matches > 0 {
                    self.files_with_matches + 1
                } else {
                    self.files_with_matches
                },
                bytes: self.bytes + file.bytes,
            },
        }
    }

    /// Whether every total fits a machine word.
    pub open spec fn fits(self) -> bool {
        &&& self.matches <= usize::MAX
        &&& self.files_searched <= usize::MAX
        &&& self.files_with_matches <= usize::MAX
        &&& self.bytes <= usize::MAX
    }
}

/// The totals of a sequence of file outcomes, entered one after the other:
/// the sums of the matches and of the bytes of the files that were processed,
/// their number, and the number of those with at least one match.
pub open spec fn tally(outcomes: Seq<Option<Outcome>>) -> Tally
    decreases outcomes.len(),
{
    if outcomes.len() == 0 {
        Tally::zero()
    } else {
        tally(outcomes.drop_last()).plus(outcomes.last())
    }
}

/// Search result statistics.
#[derive(Debug)]
pub struct SearchResult {
    pub total_matches: usize,
    pub files_searched: usize,
    pub files_with_matches: usize,
    pub bytes_processed: usize,
}

impl View for SearchResult {
    type V = Tally;

    open spec fn view(&self) -> Tally {
        Tally {
            matches: self.total_matches as nat,
            files_searched: self.files_searched as nat,
            files_with_matches: self.files_with_matches as nat,
            bytes: self.bytes_processed as nat,
        }
    }
}

impl Default for SearchResult {
    fn default() -> (result: SearchResult)
        ensures
            result@ == Tally::zero(),
    {
        SearchResult { total_matches: 0, files_searched: 0, files_with_matches: 0, bytes_processed: 0 }
    }
}

impl SearchResult {
    /// Whether the outcome of one more file can be entered without a total
    /// leaving the range of a machine word.
    pub fn can_record(&self, outcome: &FileResult) -> (fits: bool)
        ensures
            fits == self@.plus(Some(outcome@)).fits(),
    {
        self.total_matches.checked_add(outcome.matches).is_some()
            && self.files_searched.checked_add(1).is_some()
            && self.bytes_processed.checked_add(outcome.bytes_processed).is_some()
            && (outcome.matches == 0 || self.files_with_matches.checked_add(1).is_some())
    }

    /// Enter the outcome of one file that was processed.
    pub fn record(&mut self, outcome: &FileResult)
        requires
            old(self)@.plus(Some(outcome@)).fits(),
        ensures
            final(self)@ == old(self)@.plus(Some(outcome@)),
    {
        self.total_matches = self.total_matches + outcome.matches;
        self.files_searched = self.files_searched + 1;
        self.bytes_processed = self.bytes_processed + outcome.bytes_processed;
        if outcome.matches > 0 {
            self.files_with_matches = self.files_with_matches + 1;
        }
    }
}

/// The number of workers of a run: the configured number, or where that is 0
/// the number of processors at hand, or one where that is not known.
pub fn worker_count(configured: usize, available: Option<usize>) -> (workers: usize)
    ensures
        workers == if configured != 0 {
            configured
        } else {
            match available {
                Some(n) => n,
                None => 1,
            }
        },
{
    if configured != 0 {
        configured
    } else {
        match available {
            Some(n) => n,
            None => 1,
        }
    }
}

/// The outcomes of the files of a run, in the order of the files: none for a
/// file that could not be read, and for any other file what the per-file
/// processor reports for its content.
pub open spec fn run_outcomes(
    pattern: Seq<char>,
    case_sensitive: bool,
    files: Seq<Option<Vec<u8>>>,
    chunk_size: int,
) -> Seq<Option<Outcome>> {
    Seq::new(
        files.len(),
        |i: int|
            match files[i] {
                None => None,
                Some(content) => Some(file_outcome(pattern, case_sensitive, content@, chunk_size)),
            },
    )
}

/// The number of matches that the files of a run hold where each is matched
/// in one piece.
pub open spec fn whole_file_matches(
    pattern: Seq<char>,
    case_sensitive: bool,
    files: Seq<Option<Vec<u8>>>,
) -> nat
    decreases files.len(),
{
    if files.len() == 0 {
        0
    } else {
        whole_file_matches(pattern, case_sensitive, files.drop_last()) + match files.last() {
            None => 0,
            Some(content) => pattern_count(pattern, case_sensitive, content@),
        }
    }
}

/// Room for the totals of a run: two for every byte of a file that can be
/// read, and two more for the file.
pub open spec fn room_needed(files: Seq<Option<Vec<u8>>>) -> nat
    decreases files.len(),
{
    if files.len() == 0 {
        0
    } else {
        room_needed(files.drop_last()) + match files.last() {
            None => 0,
            Some(content) => 2 * content@.len() + 2,
        }
    }
}

/// The first `n` files of a run need no more room than all of them.
proof fn lemma_room_grows(files: Seq<Option<Vec<u8>>>, n: int)
    requires
        0 <= n <= files.len(),
    ensures
        room_needed(files.take(n)) <= room_needed(files),
    decreases files.len() - n,
{
    if n < files.len() {
        lemma_room_grows(files, n + 1);
        assert(files.take(n + 1).drop_last() == files.take(n));
    } else {
        assert(files.take(n) == files);
    }
}

/// Search a set of files whose contents are in memory, one after the other:
/// every file that could be read is processed and entered into the totals.
pub fn search_contents(matcher: &RegexMatcher, files: &Vec<Option<Vec<u8>>>, chunk_size: usize) -> (result:
    SearchResult)
    requires
        room_needed(files@) <= usize::MAX,
    ensures
        result@ == tally(
            run_outcomes(matcher@.pattern, matcher@.case_sensitive, files@, chunk_size as int),
        ),
{
    let mut result = SearchResult::default();
    let mut i: usize = 0;
    while i < files.len()
        invariant
            i <= files.len(),
            room_needed(files@) <= usize::MAX,
            result@ == tally(
                run_outcomes(
                    matcher@.pattern,
                    matcher@.case_sensitive,
                    files@.take(i as int),
                    chunk_size as int,
                ),
            ),
            result@.matches + result@.files_searched <= room_needed(files@.take(i as int)),
            result@.bytes <= room_needed(files@.take(i as int)),
            result@.files_with_matches <= result@.files_searched,
        decreases files.len() - i,
    {
        let ghost before = run_outcomes(
            matcher@.pattern,
            matcher@.case_sensitive,
            files@.take(i as int),
            chunk_size as int,
        );
        let ghost after = run_outcomes(
            matcher@.pattern,
            matcher@.case_sensitive,
            files@.take(i + 1),
            chunk_size as int,
        );
        proof {
            lemma_room_grows(files@, i + 1);
            assert(files@.take(i + 1).drop_last() == files@.take(i as int));
            assert(after.drop_last() == before);
        }
        match &files[i] {
            Some(content) => {
                let outcome = process_file(content.as_slice(), matcher, chunk_size);
                result.record(&outcome);
            },
            None => {},
        }
        i += 1;
    }
    proof {
        assert(files@.take(files.len() as int) == files@);
    }
    result
}

/// Main search execution function, over files whose contents are in memory:
/// the pattern is compiled, which fails the run before any file is touched
/// where it does not compile, and every file that could be read is processed
/// with the configured chunk size and entered into the totals.
pub fn execute_search(args: &Args, files: &Vec<Option<Vec<u8>>>) -> (run: Result<
    SearchResult,
    PatternError,
>)
    requires
        args.chunk_size * 1024 <= usize::MAX,
        room_needed(files@) <= usize::MAX,
    ensures
        run is Ok <==> compiled(args.pattern@, !args.case_sensitive, true, false) is Ok,
        run matches Ok(result) ==> result@ == tally(
            run_outcomes(args.pattern@, args.case_sensitive, files@, args.chunk_size * 1024),
        ),
        run matches Err(e) ==> e.pattern@ == args.pattern@,
{
    match RegexMatcher::new(args.pattern.as_str(), args.case_sensitive) {
        Ok(matcher) => Ok(search_contents(&matcher, files, args.chunk_size * 1024)),
        Err(e) => Err(e),
    }
}

/// The totals of a run do not depend on the order in which its files come
/// in: two sequences of outcomes that hold the same outcomes the same number
/// of times give the same totals.
pub proof fn lemma_totals_ignore_order(first: Seq<Option<Outcome>>, second: Seq<Option<Outcome>>)
    requires
        first.to_multiset() == second.to_multiset(),
    ensures
        tally(first) == tally(second),
{
    let enter = |totals: Tally, outcome: Option<Outcome>| totals.plus(outcome);
    lemma_tally_is_fold(first);
    lemma_tally_is_fold(second);
    assert(commutative_foldl(enter)) by {
        assert forall|x: Option<Outcome>, y: Option<Outcome>, v: Tally| #[trigger]
            enter(enter(v, x), y) == enter(enter(v, y), x) by {}
    }
    lemma_fold_left_permutation(first, second, enter, Tally::zero());
}

/// Two runs over the same files with the same pattern, case flag and chunk
/// size give the same totals, in whatever order the files of each run are
/// finished: the totals of either run are those of the files taken in their
/// given order.
pub proof fn lemma_runs_agree(
    pattern: Seq<char>,
    case_sensitive: bool,
    files: Seq<Option<Vec<u8>>>,
    chunk_size: int,
    first_run: Seq<Option<Outcome>>,
    second_run: Seq<Option<Outcome>>,
)
    requires
        first_run.to_multiset() == run_outcomes(
            pattern,
            case_sensitive,
            files,
            chunk_size,
        ).to_multiset(),
        second_run.to_multiset() == run_outcomes(
            pattern,
            case_sensitive,
            files,
            chunk_size,
        ).to_multiset(),
    ensures
        tally(first_run) == tally(second_run),
        tally(first_run) == tally(run_outcomes(pattern, case_sensitive, files, chunk_size)),
{
    let in_order = run_outcomes(pattern, case_sensitive, files, chunk_size);
    lemma_totals_ignore_order(first_run, in_order);
    lemma_totals_ignore_order(second_run, in_order);
}

/// The totals are the outcomes folded into the empty totals.
proof fn lemma_tally_is_fold(outcomes: Seq<Option<Outcome>>)
    ensures
        tally(outcomes) == outcomes.fold_left(
            Tally::zero(),
            |totals: Tally, outcome: Option<Outcome>| totals.plus(outcome),
        ),
    decreases outcomes.len(),
{
    if outcomes.len() > 0 {
        lemma_tally_is_fold(outcomes.drop_last());
    }
}

/// The total of a run against the whole-file count: for a chunk size of at
/// least one byte that cuts every file cleanly, the total number of matches
/// is the sum, over the files that could be read, of the matches that each
/// holds in one piece.
pub proof fn lemma_total_is_sum_of_whole_file_counts(
    pattern: Seq<char>,
    case_sensitive: bool,
    files: Seq<Option<Vec<u8>>>,
    chunk_size: int,
)
    requires
        chunk_size >= 1,
        forall|i: int|
            0 <= i < files.len() ==> (#[trigger] files[i] matches Some(content)
                ==> cuts_are_clean(pattern, case_sensitive, content@, chunk_size)),
    ensures
        tally(run_outcomes(pattern, case_sensitive, files, chunk_size)).matches
            == whole_file_matches(pattern, case_sensitive, files),
    decreases files.len(),
{
    if files.len() > 0 {
        let front = files.drop_last();
        lemma_total_is_sum_of_whole_file_counts(pattern, case_sensitive, front, chunk_size);
        assert(run_outcomes(pattern, case_sensitive, files, chunk_size).drop_last()
            == run_outcomes(pattern, case_sensitive, front, chunk_size));
        match files.last() {
            Some(content) => {
                lemma_clean_cuts_count_whole(pattern, case_sensitive, content@, chunk_size);
            },
            None => {},
        }
    }
}

} // verus!
