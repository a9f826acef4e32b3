//! Streaming one file entry to its destination.
//!
//! The pipeline never touches a file itself. It tells the caller which
//! action comes next, the caller performs it and reports what happened, and
//! the pipeline moves on. A run goes: make sure the parent directories
//! exist, open the destination, then read a chunk and write it, again and
//! again, until a read yields nothing; then flush. The first failure ends
//! the run; what has been written by then stays on disk.

use vstd::prelude::*;

verus! {

/// The largest number of bytes asked for in one read.
pub const COPY_CHUNK_SIZE: usize = 65536;

/// The step at which a copy failed.
#[derive(Clone, Copy, Debug, PartialEq, Eq, Structural)]
pub enum CopyFailure {
    /// The parent directories could not be created.
    CreateParents,
    /// The destination could not be opened.
    Open,
    /// Reading from the entry failed, or claimed more bytes than were
    /// asked for.
    Read,
    /// Writing a chunk failed.
    Write,
    /// Flushing the writer failed.
    Flush,
    /// The caller reported something that cannot follow the action it was
    /// given.
    Unexpected,
}

/// Where a copy stands.
#[derive(Clone, Copy, Debug, PartialEq, Eq, Structural)]
pub enum CopyStage {
    /// The parent directories are to be ensured.
    Parents,
    /// The destination is to be opened.
    Opening,
    /// The next chunk is to be read.
    Reading,
    /// The chunk just read, `pending` bytes long, is to be written.
    Writing { pending: usize },
    /// The entry's stream has ended; the writer is to be flushed.
    Flushing,
    /// Every byte has been written and flushed.
    Complete,
    /// The copy was given up.
    Failed(CopyFailure),
}

/// What the caller has to do next.
#[derive(Clone, Copy, Debug, PartialEq, Eq, Structural)]
pub enum CopyAction {
    /// Create the destination's parent directories, all of them, unless
    /// they exist.
    EnsureParents,
    /// Open the destination for writing, creating it if absent and
    /// truncating it if present, behind a write buffer of `buffer` bytes.
    OpenDestination { buffer: usize },
    /// Read up to `limit` bytes from the entry's stream.
    ReadChunk { limit: usize },
    /// Write the first `len` bytes of the chunk just read, all of them.
    WriteChunk { len: usize },
    /// Flush the write buffer.
    Flush,
    /// Nothing: the entry is on disk.
    Finish,
    /// Nothing: the entry is given up for this reason.
    Abandon(CopyFailure),
}

/// What the caller reports after performing an action.
#[derive(Clone, Copy, Debug, PartialEq, Eq, Structural)]
pub enum CopyEvent {
    /// The action succeeded. Not used for a read.
    Done,
    /// The read succeeded and yielded this many bytes; zero means the
    /// stream has ended.
    Read(usize),
    /// The action failed.
    Failed,
}

/// The state of a copy as contracts see it.
pub struct CopyView {
    pub stage: CopyStage,
    /// The size of the write buffer that the destination is opened with.
    pub write_buffer: nat,
    /// The number of bytes read from the entry's stream so far.
    pub taken: nat,
    /// The number of bytes written to the destination so far.
    pub written: nat,
}

/// The action that belongs to a stage.
pub open spec fn action_at(stage: CopyStage, write_buffer: nat) -> CopyAction {
    match stage {
        CopyStage::Parents => CopyAction::EnsureParents,
        CopyStage::Opening => CopyAction::OpenDestination { buffer: write_buffer as usize },
        CopyStage::Reading => CopyAction::ReadChunk { limit: COPY_CHUNK_SIZE },
        CopyStage::Writing { pending } => CopyAction::WriteChunk { len: pending },
        CopyStage::Flushing => CopyAction::Flush,
        CopyStage::Complete => CopyAction::Finish,
        CopyStage::Failed(failure) => CopyAction::Abandon(failure),
    }
}

/// The stage that follows `stage` once the caller reports `event`.
///
/// A failed action gives up the copy at that step. A read of zero bytes ends
/// the stream. A finished or abandoned copy stays as it is.
pub open spec fn next_stage(stage: CopyStage, event: CopyEvent) -> CopyStage {
    match stage {
        CopyStage::Parents => match event {
            CopyEvent::Done => CopyStage::Opening,
            CopyEvent::Failed => CopyStage::Failed(CopyFailure::CreateParents),
            CopyEvent::Read(_) => CopyStage::Failed(CopyFailure::Unexpected),
        },
        CopyStage::Opening => match event {
            CopyEvent::Done => CopyStage::Reading,
            CopyEvent::Failed => CopyStage::Failed(CopyFailure::Open),
            CopyEvent::Read(_) => CopyStage::Failed(CopyFailure::Unexpected),
        },
        CopyStage::Reading => match event {
            CopyEvent::Read(n) => if n == 0 {
                CopyStage::Flushing
            } else if n <= COPY_CHUNK_SIZE {
                CopyStage::Writing { pending: n }
            } else {
                CopyStage::Failed(CopyFailure::Read)
            },
            CopyEvent::Failed => CopyStage::Failed(CopyFailure::Read),
            CopyEvent::Done => CopyStage::Failed(CopyFailure::Unexpected),
        },
        CopyStage::Writing { pending } => match event {
            CopyEvent::Done => CopyStage::Reading,
            CopyEvent::Failed => CopyStage::Failed(CopyFailure::Write),
            CopyEvent::Read(_) => CopyStage::Failed(CopyFailure::Unexpected),
        },
        CopyStage::Flushing => match event {
            CopyEvent::Done => CopyStage::Complete,
            CopyEvent::Failed => CopyStage::Failed(CopyFailure::Flush),
            CopyEvent::Read(_) => CopyStage::Failed(CopyFailure::Unexpected),
        },
        CopyStage::Complete => CopyStage::Complete,
        CopyStage::Failed(failure) => CopyStage::Failed(failure),
    }
}

/// The state that follows `before` once the caller reports `event`: the
/// stage moves on, a chunk that was read counts as taken, and a chunk that
/// was written counts as written.
pub open spec fn step(before: CopyView, event: CopyEvent) -> CopyView {
    let stage = next_stage(before.stage, event);
    CopyView {
        stage,
        write_buffer: before.write_buffer,
        taken: match stage {
            CopyStage::Writing { pending } => before.taken + pending as nat,
            _ => before.taken,
        },
        written: match (before.stage, event) {
            (CopyStage::Writing { pending }, CopyEvent::Done) => before.written + pending as nat,
            _ => before.written,
        },
    }
}

/// The state in which every copy starts.
pub open spec fn initial(write_buffer: nat) -> CopyView {
    CopyView { stage: CopyStage::Parents, write_buffer, taken: 0, written: 0 }
}

/// The state reached from `from` after the caller has reported `events` one
/// after the other.
pub open spec fn run(from: CopyView, events: Seq<CopyEvent>) -> CopyView
    decreases events.len(),
{
    if events.len() == 0 {
        from
    } else {
        step(run(from, events.drop_last()), events.last())
    }
}

/// Whether the bytes are accounted for: unless the copy was given up, what
/// was read has been written, but for the chunk that is waiting to be.
pub open spec fn is_balanced(state: CopyView) -> bool {
    match state.stage {
        CopyStage::Writing { pending } => state.taken == state.written + pending
            && 0 < pending <= COPY_CHUNK_SIZE,
        CopyStage::Failed(_) => state.written <= state.taken,
        _ => state.taken == state.written,
    }
}

/// One entry's copy in progress.
pub struct CopyPipeline {
    stage: CopyStage,
    write_buffer: usize,
    taken: Ghost<nat>,
    written: Ghost<nat>,
}

impl View for CopyPipeline {
    type V = CopyView;

    closed spec fn view(&self) -> CopyView {
        CopyView {
            stage: self.stage,
            write_buffer: self.write_buffer as nat,
            taken: self.taken@,
            written: self.written@,
        }
    }
}

impl CopyPipeline {
    #[verifier::type_invariant]
    spec fn accounted(&self) -> bool {
        is_balanced(self@)
    }

    /// Starts the copy of one entry to a destination that is written through
    /// a buffer of `write_buffer` bytes.
    pub fn start(write_buffer: usize) -> (pipeline: CopyPipeline)
        ensures
            pipeline@ == initial(write_buffer as nat),
    {
        CopyPipeline {
            stage: CopyStage::Parents,
            write_buffer,
            taken: Ghost(0),
            written: Ghost(0),
        }
    }

    /// Where the copy stands.
    pub fn stage(&self) -> (stage: CopyStage)
        ensures
            stage == self@.stage,
            is_balanced(self@),
    {
        proof {
            use_type_invariant(self);
        }
        self.stage
    }

    /// The action that the caller has to perform next.
    pub fn action(&self) -> (action: CopyAction)
        ensures
            action == action_at(self@.stage, self@.write_buffer),
    {
        match self.stage {
            CopyStage::Parents => CopyAction::EnsureParents,
            CopyStage::Opening => CopyAction::OpenDestination { buffer: self.write_buffer },
            CopyStage::Reading => CopyAction::ReadChunk { limit: COPY_CHUNK_SIZE },
            CopyStage::Writing { pending } => CopyAction::WriteChunk { len: pending },
            CopyStage::Flushing => CopyAction::Flush,
            CopyStage::Complete => CopyAction::Finish,
            CopyStage::Failed(failure) => CopyAction::Abandon(failure),
        }
    }

    /// Whether the copy has ended, in success or in failure.
    pub fn is_over(&self) -> (over: bool)
        ensures
            over == (self@.stage is Complete || self@.stage is Failed),
    {
        match self.stage {
            CopyStage::Complete => true,
            CopyStage::Failed(_) => true,
            _ => false,
        }
    }

    /// How the copy ended: `Some(Ok)` once it is complete, `Some(Err)` with
    /// the failing step once it is given up, `None` while it is under way.
    pub fn outcome(&self) -> (outcome: Option<Result<(), CopyFailure>>)
        ensures
            outcome == match self@.stage {
                CopyStage::Complete => Some(Ok::<(), CopyFailure>(())),
                CopyStage::Failed(failure) => Some(Err::<(), CopyFailure>(failure)),
                _ => None,
            },
            self@.stage is Complete ==> self@.written == self@.taken,
    {
        proof {
            use_type_invariant(self);
        }
        match self.stage {
            CopyStage::Complete => Some(Ok(())),
            CopyStage::Failed(failure) => Some(Err(failure)),
            _ => None,
        }
    }

    /// Takes in what the caller reports after performing the action.
    pub fn advance(&mut self, event: CopyEvent)
        ensures
            final(self)@ == step(old(self)@, event),
            is_balanced(final(self)@),
    {
        proof {
            use_type_invariant(&*self);
            lemma_step_keeps_balance(self@, event);
        }
        let ghost before = self@;
        let next: CopyStage = match self.stage {
            CopyStage::Parents => match event {
                CopyEvent::Done => CopyStage::Opening,
                CopyEvent::Failed => CopyStage::Failed(CopyFailure::CreateParents),
                CopyEvent::Read(_) => CopyStage::Failed(CopyFailure::Unexpected),
            },
            CopyStage::Opening => match event {
                CopyEvent::Done => CopyStage::Reading,
                CopyEvent::Failed => CopyStage::Failed(CopyFailure::Open),
                CopyEvent::Read(_) => CopyStage::Failed(CopyFailure::Unexpected),
            },
            CopyStage::Reading => match event {
                CopyEvent::Read(n) => if n == 0 {
                    CopyStage::Flushing
                } else if n <= COPY_CHUNK_SIZE {
                    CopyStage::Writing { pending: n }
                } else {
                    CopyStage::Failed(CopyFailure::Read)
                },
                CopyEvent::Failed => CopyStage::Failed(CopyFailure::Read),
                CopyEvent::Done => CopyStage::Failed(CopyFailure::Unexpected),
            },
            CopyStage::Writing { pending } => match event {
                CopyEvent::Done => CopyStage::Reading,
                CopyEvent::Failed => CopyStage::Failed(CopyFailure::Write),
                CopyEvent::Read(_) => CopyStage::Failed(CopyFailure::Unexpected),
            },
            CopyStage::Flushing => match event {
                CopyEvent::Done => CopyStage::Complete,
                CopyEvent::Failed => CopyStage::Failed(CopyFailure::Flush),
                CopyEvent::Read(_) => CopyStage::Failed(CopyFailure::Unexpected),
            },
            CopyStage::Complete => CopyStage::Complete,
            CopyStage::Failed(failure) => CopyStage::Failed(failure),
        };
        let ghost after = step(before, event);
        *self = CopyPipeline {
            stage: next,
            write_buffer: self.write_buffer,
            taken: Ghost(after.taken),
            written: Ghost(after.written),
        };
    }
}

/// Taking in an event keeps the bytes accounted for.
pub proof fn lemma_step_keeps_balance(before: CopyView, event: CopyEvent)
    requires
        is_balanced(before),
    ensures
        is_balanced(step(before, event)),
{
}

/// Whatever the caller reports, and in whatever order, the bytes stay
/// accounted for from the start on; a copy that completes has written every
/// byte that it read.
pub proof fn lemma_complete_copy_wrote_all(write_buffer: nat, events: Seq<CopyEvent>)
    ensures
        is_balanced(run(initial(write_buffer), events)),
        run(initial(write_buffer), events).stage is Complete ==> run(
            initial(write_buffer),
            events,
        ).written == run(initial(write_buffer), events).taken,
    decreases events.len(),
{
    if events.len() > 0 {
        lemma_complete_copy_wrote_all(write_buffer, events.drop_last());
        lemma_step_keeps_balance(run(initial(write_buffer), events.drop_last()), events.last());
    }
}

/// A copy that has ended stays as it is, whatever is reported to it.
pub proof fn lemma_ended_copy_stays(before: CopyView, event: CopyEvent)
    requires
        before.stage is Complete || before.stage is Failed,
    ensures
        step(before, event) == before,
{
}

/// A copy completes only by way of a flush that succeeded, and reaches the
/// flush only by way of a read that yielded nothing.
pub proof fn lemma_completion_path(before: CopyView, event: CopyEvent)
    ensures
        step(before, event).stage is Complete && !(before.stage is Complete) ==> before.stage
            is Flushing && event is Done,
        step(before, event).stage is Flushing ==> before.stage is Reading && event
            == CopyEvent::Read(0),
        step(before, event).stage matches CopyStage::Writing { pending } ==> before.stage
            is Reading && event == CopyEvent::Read(pending),
{
}

/// Nothing is opened before the parent directories are ensured, and nothing
/// is read or written before the destination is open: a copy that got as far
/// as reading began with two actions that succeeded, in whatever order its
/// entry stands among the others of the archive.
pub proof fn lemma_copy_begins_with_parents(write_buffer: nat, events: Seq<CopyEvent>)
    ensures
        ({
            let stage = run(initial(write_buffer), events).stage;
            &&& stage is Parents ==> events.len() == 0
            &&& stage is Opening ==> events.len() == 1 && events[0] is Done
            &&& stage is Reading || stage is Writing || stage is Flushing || stage is Complete
                ==> events.len() >= 2 && events[0] is Done && events[1] is Done
        }),
        action_at(initial(write_buffer).stage, write_buffer) == CopyAction::EnsureParents,
    decreases events.len(),
{
    if events.len() > 0 {
        let earlier = events.drop_last();
        lemma_copy_begins_with_parents(write_buffer, earlier);
        if earlier.len() >= 1 {
            assert(earlier[0] == events[0]);
        }
        if earlier.len() >= 2 {
            assert(earlier[1] == events[1]);
        }
        assert(events.last() == events[events.len() - 1]);
    }
}

} // verus!
