//! Walking the entries of an archive: what to do with each one, and what a
//! failure means.
//!
//! A cursor walks a run of entry indices in order. The caller retrieves the
//! entry that the cursor points at, carries out its plan and reports how it
//! went. The two modes treat a failure differently, on purpose: a sequential
//! run stops at the first one and returns it, while a worker of a parallel
//! run reports it, skips the entry and goes on.

use vstd::prelude::*;
use crate::pipeline::CopyFailure;
use crate::sanitize::{output_location, output_path};
use crate::workers::ChunkRange;

verus! {

/// How the entries are extracted, which decides what a failure means.
#[derive(Clone, Copy, Debug, PartialEq, Eq, Structural)]
pub enum ExtractionMode {
    /// One loop over all entries; the first failure ends the run.
    Sequential,
    /// Several workers, each with a chunk of its own; a failure costs the
    /// entry it happened on and nothing else.
    Parallel,
}

/// Why one entry could not be extracted.
#[derive(Clone, Copy, Debug, PartialEq, Eq, Structural)]
pub enum EntryFailure {
    /// The entry could not be retrieved from the archive.
    Retrieval,
    /// The entry is a directory that could not be created.
    CreateDirectory,
    /// The entry is a file whose copy failed at the given step.
    Copy(CopyFailure),
}

/// Why an extraction as a whole failed.
#[derive(Clone, Copy, Debug, PartialEq, Eq, Structural)]
pub enum ExtractError {
    /// The archive could not be opened or read as an archive.
    ArchiveOpen,
    /// The pool of workers could not be built.
    ThreadPool,
    /// In a sequential run, the first entry that failed.
    Entry { index: usize, failure: EntryFailure },
}

/// What is to be done with one entry.
#[derive(Debug, PartialEq, Eq)]
pub enum EntryPlan {
    /// Create the directory at `path`, and every missing directory above it.
    CreateDirectory { path: String },
    /// Stream the entry's bytes to the file at `path`.
    CopyFile { path: String },
}

impl EntryPlan {
    /// The path that the entry lands on.
    pub open spec fn target(self) -> Seq<char> {
        match self {
            EntryPlan::CreateDirectory { path } => path@,
            EntryPlan::CopyFile { path } => path@,
        }
    }

    /// The path that the entry lands on.
    pub fn path(&self) -> (path: &str)
        ensures
            path@ == self.target(),
    {
        match self {
            EntryPlan::CreateDirectory { path } => path.as_str(),
            EntryPlan::CopyFile { path } => path.as_str(),
        }
    }

    /// Whether the entry is a directory to create.
    pub fn is_directory(&self) -> (directory: bool)
        ensures
            directory == (self is CreateDirectory),
    {
        match self {
            EntryPlan::CreateDirectory { .. } => true,
            EntryPlan::CopyFile { .. } => false,
        }
    }
}

/// Plans one entry: a directory entry is created, a file entry is copied,
/// and either lands where its sanitized name puts it below `output_dir`.
///
/// The plan depends on the entry alone, not on the mode of extraction nor on
/// the entries around it.
pub fn plan_entry(output_dir: &str, name: &str, is_dir: bool) -> (plan: EntryPlan)
    ensures
        plan.target() == output_location(output_dir@, name@),
        (plan is CreateDirectory) == is_dir,
        (plan is CopyFile) == !is_dir,
{
    let path: String = output_path(output_dir, name);
    if is_dir {
        EntryPlan::CreateDirectory { path }
    } else {
        EntryPlan::CopyFile { path }
    }
}

/// A cursor as contracts see it.
pub struct CursorView {
    pub mode: ExtractionMode,
    /// The index of the first entry of the run.
    pub first: int,
    /// The index of the entry to handle next.
    pub next: int,
    /// The index after the last entry of the run.
    pub end: int,
    /// The number of entries that failed and were skipped.
    pub skipped: int,
    /// The error that stopped the run, if one did.
    pub stopped: Option<ExtractError>,
}

/// What the cursor tells the caller after an entry was reported.
#[derive(Clone, Copy, Debug, PartialEq, Eq, Structural)]
pub enum Verdict {
    /// The entry is done; go on with the next.
    Proceed,
    /// The entry failed; report it and go on with the next.
    Skipped { index: usize, failure: EntryFailure },
    /// The entry failed and the run ends with this error.
    Stopped(ExtractError),
    /// There was no entry to report on; nothing changed.
    Idle,
}

/// The index of the entry that is to be handled next, if the run goes on.
pub open spec fn current_of(cursor: CursorView) -> Option<int> {
    if cursor.stopped is None && cursor.next < cursor.end {
        Some(cursor.next)
    } else {
        None
    }
}

/// The cursor after the caller has reported `outcome` for its current entry.
pub open spec fn after_record(cursor: CursorView, outcome: Result<(), EntryFailure>) -> CursorView {
    if current_of(cursor) is None {
        cursor
    } else {
        match outcome {
            Ok(_) => CursorView { next: cursor.next + 1, ..cursor },
            Err(failure) => match cursor.mode {
                ExtractionMode::Sequential => CursorView {
                    stopped: Some(
                        ExtractError::Entry { index: cursor.next as usize, failure },
                    ),
                    ..cursor
                },
                ExtractionMode::Parallel => CursorView {
                    next: cursor.next + 1,
                    skipped: cursor.skipped + 1,
                    ..cursor
                },
            },
        }
    }
}

/// What the caller is told when it reports `outcome` for the current entry.
pub open spec fn verdict_of(cursor: CursorView, outcome: Result<(), EntryFailure>) -> Verdict {
    if current_of(cursor) is None {
        Verdict::Idle
    } else {
        match outcome {
            Ok(_) => Verdict::Proceed,
            Err(failure) => match cursor.mode {
                ExtractionMode::Sequential => Verdict::Stopped(
                    ExtractError::Entry { index: cursor.next as usize, failure },
                ),
                ExtractionMode::Parallel => Verdict::Skipped {
                    index: cursor.next as usize,
                    failure,
                },
            },
        }
    }
}

/// The cursor at the start of a run over `range`. A range that ends before
/// it starts holds no entry.
pub open spec fn cursor_at_start(mode: ExtractionMode, range: ChunkRange) -> CursorView {
    CursorView {
        mode,
        first: range.start as int,
        next: range.start as int,
        end: if range.start <= range.end {
            range.end as int
        } else {
            range.start as int
        },
        skipped: 0,
        stopped: None,
    }
}

/// The cursor after the caller has reported `outcomes` one after the other.
pub open spec fn after_all(cursor: CursorView, outcomes: Seq<Result<(), EntryFailure>>) -> CursorView
    decreases outcomes.len(),
{
    if outcomes.len() == 0 {
        cursor
    } else {
        after_record(after_all(cursor, outcomes.drop_last()), outcomes.last())
    }
}

/// Whether a cursor's numbers fit together.
pub open spec fn is_consistent(cursor: CursorView) -> bool {
    &&& 0 <= cursor.first <= cursor.next <= cursor.end <= usize::MAX
    &&& 0 <= cursor.skipped <= cursor.next - cursor.first
    &&& cursor.mode is Sequential ==> cursor.skipped == 0
    &&& cursor.mode is Parallel ==> cursor.stopped is None
    &&& cursor.stopped matches Some(error) ==> error matches ExtractError::Entry { index, .. }
        && index == cursor.next && cursor.next < cursor.end
}

/// A walk over a run of entries.
pub struct EntryCursor {
    mode: ExtractionMode,
    first: usize,
    next: usize,
    end: usize,
    skipped: usize,
    stopped: Option<ExtractError>,
}

impl View for EntryCursor {
    type V = CursorView;

    closed spec fn view(&self) -> CursorView {
        CursorView {
            mode: self.mode,
            first: self.first as int,
            next: self.next as int,
            end: self.end as int,
            skipped: self.skipped as int,
            stopped: self.stopped,
        }
    }
}

impl EntryCursor {
    #[verifier::type_invariant]
    spec fn consistent(&self) -> bool {
        is_consistent(self@)
    }

    /// Starts a walk over the entries of `range`.
    pub fn over(mode: ExtractionMode, range: ChunkRange) -> (cursor: EntryCursor)
        ensures
            cursor@ == cursor_at_start(mode, range),
            is_consistent(cursor@),
    {
        let end: usize = if range.start <= range.end {
            range.end
        } else {
            range.start
        };
        EntryCursor { mode, first: range.start, next: range.start, end, skipped: 0, stopped: None }
    }

    /// The index of the entry to retrieve next, or `None` when the run has
    /// reached its end or was stopped.
    pub fn current(&self) -> (index: Option<usize>)
        ensures
            match index {
                Some(i) => current_of(self@) == Some(i as int),
                None => current_of(self@) is None,
            },
    {
        if self.stopped.is_none() && self.next < self.end {
            Some(self.next)
        } else {
            None
        }
    }

    /// Takes in how the current entry went and says how to go on.
    pub fn record(&mut self, outcome: Result<(), EntryFailure>) -> (verdict: Verdict)
        ensures
            final(self)@ == after_record(old(self)@, outcome),
            verdict == verdict_of(old(self)@, outcome),
            is_consistent(final(self)@),
    {
        proof {
            use_type_invariant(&*self);
        }
        if self.stopped.is_some() || self.next >= self.end {
            return Verdict::Idle;
        }
        let index: usize = self.next;
        match outcome {
            Ok(_) => {
                *self = EntryCursor {
                    mode: self.mode,
                    first: self.first,
                    next: index + 1,
                    end: self.end,
                    skipped: self.skipped,
                    stopped: None,
                };
                Verdict::Proceed
            },
            Err(failure) => match self.mode {
                ExtractionMode::Sequential => {
                    let error = ExtractError::Entry { index, failure };
                    *self = EntryCursor {
                        mode: self.mode,
                        first: self.first,
                        next: index,
                        end: self.end,
                        skipped: self.skipped,
                        stopped: Some(error),
                    };
                    Verdict::Stopped(error)
                },
                ExtractionMode::Parallel => {
                    *self = EntryCursor {
                        mode: self.mode,
                        first: self.first,
                        next: index + 1,
                        end: self.end,
                        skipped: self.skipped + 1,
                        stopped: None,
                    };
                    Verdict::Skipped { index, failure }
                },
            },
        }
    }

    /// Whether nothing is left to do: every entry was handled, or the run
    /// was stopped.
    pub fn is_finished(&self) -> (finished: bool)
        ensures
            finished == (current_of(self@) is None),
    {
        self.stopped.is_some() || self.next >= self.end
    }

    /// The number of entries that failed and were skipped.
    pub fn skipped(&self) -> (count: usize)
        ensures
            count == self@.skipped,
    {
        self.skipped
    }

    /// The result of the run so far: the error that stopped it, if one did.
    pub fn result(&self) -> (result: Result<(), ExtractError>)
        ensures
            result == match self@.stopped {
                Some(error) => Err::<(), ExtractError>(error),
                None => Ok::<(), ExtractError>(()),
            },
            self@.mode is Parallel ==> result is Ok,
    {
        proof {
            use_type_invariant(self);
        }
        match self.stopped {
            Some(error) => Err(error),
            None => Ok(()),
        }
    }
}

/// Whether no outcome of `outcomes` is a failure.
pub open spec fn all_succeed(outcomes: Seq<Result<(), EntryFailure>>) -> bool {
    forall|i: int| 0 <= i < outcomes.len() ==> (#[trigger] outcomes[i]) is Ok
}

/// The number of failures among `outcomes`.
pub open spec fn failures_in(outcomes: Seq<Result<(), EntryFailure>>) -> int
    decreases outcomes.len(),
{
    if outcomes.len() == 0 {
        0
    } else {
        failures_in(outcomes.drop_last()) + if outcomes.last() is Err {
            1int
        } else {
            0int
        }
    }
}

/// Reporting an outcome keeps a cursor's numbers fitting together.
pub proof fn lemma_record_keeps_consistent(cursor: CursorView, outcome: Result<(), EntryFailure>)
    requires
        is_consistent(cursor),
    ensures
        is_consistent(after_record(cursor, outcome)),
{
}

/// A worker of a parallel run is never stopped: given an outcome for each
/// entry of its range, whatever the outcomes, it handles them all, skips
/// exactly those that failed, and ends in success.
pub proof fn lemma_parallel_run_goes_on(
    range: ChunkRange,
    outcomes: Seq<Result<(), EntryFailure>>,
)
    requires
        range.start <= range.end,
        outcomes.len() <= range.end - range.start,
    ensures
        ({
            let cursor = after_all(cursor_at_start(ExtractionMode::Parallel, range), outcomes);
            &&& cursor.stopped is None
            &&& cursor.next == range.start + outcomes.len()
            &&& cursor.skipped == failures_in(outcomes)
            &&& cursor.mode is Parallel && cursor.first == range.start && cursor.end == range.end
            &&& is_consistent(cursor)
        }),
    decreases outcomes.len(),
{
    if outcomes.len() > 0 {
        lemma_parallel_run_goes_on(range, outcomes.drop_last());
    }
}

/// A sequential run stops at the first failure: once an entry has failed,
/// the run returns that entry's error, and no later report moves it on.
pub proof fn lemma_sequential_run_stops(
    range: ChunkRange,
    before: Seq<Result<(), EntryFailure>>,
    failure: EntryFailure,
    after: Seq<Result<(), EntryFailure>>,
)
    requires
        range.start <= range.end,
        before.len() < range.end - range.start,
        all_succeed(before),
    ensures
        ({
            let outcomes = before.push(Err(failure)) + after;
            let cursor = after_all(cursor_at_start(ExtractionMode::Sequential, range), outcomes);
            &&& cursor.stopped == Some(
                ExtractError::Entry { index: (range.start + before.len()) as usize, failure },
            )
            &&& cursor.next == range.start + before.len()
            &&& cursor.mode is Sequential && cursor.first == range.start && cursor.end == range.end
            &&& current_of(cursor) is None
        }),
    decreases after.len(),
{
    let start = cursor_at_start(ExtractionMode::Sequential, range);
    let outcomes = before.push(Err(failure)) + after;
    if after.len() == 0 {
        assert(outcomes =~= before.push(Err(failure)));
        assert(outcomes.drop_last() =~= before);
        lemma_run_without_failure(ExtractionMode::Sequential, range, before);
    } else {
        assert(outcomes.drop_last() =~= before.push(Err(failure)) + after.drop_last());
        lemma_sequential_run_stops(range, before, failure, after.drop_last());
    }
}

/// While nothing fails, the mode makes no difference: either kind of run
/// handles the entries of its range one by one, in index order, skips none
/// and is not stopped.
pub proof fn lemma_run_without_failure(
    mode: ExtractionMode,
    range: ChunkRange,
    outcomes: Seq<Result<(), EntryFailure>>,
)
    requires
        range.start <= range.end,
        outcomes.len() <= range.end - range.start,
        all_succeed(outcomes),
    ensures
        ({
            let cursor = after_all(cursor_at_start(mode, range), outcomes);
            &&& cursor.stopped is None
            &&& cursor.skipped == 0
            &&& cursor.next == range.start + outcomes.len()
            &&& cursor.mode == mode && cursor.first == range.start && cursor.end == range.end
            &&& (current_of(cursor) is None) == (outcomes.len() == range.end - range.start)
        }),
    decreases outcomes.len(),
{
    if outcomes.len() > 0 {
        let front = outcomes.drop_last();
        assert forall|i: int| 0 <= i < front.len() implies (#[trigger] front[i]) is Ok by {
            assert(front[i] == outcomes[i]);
        }
        lemma_run_without_failure(mode, range, front);
        assert(outcomes.last() == outcomes[outcomes.len() - 1]);
    }
}

} // verus!
