//! How many workers an extraction uses, and which entries each one handles.

use vstd::prelude::*;

verus! {

/// In automatic mode one worker is used per this many entries.
pub const ENTRIES_PER_WORKER: usize = 20;

/// `x` limited to the closed interval from `low` to `high`.
pub open spec fn clamp_between(x: int, low: int, high: int) -> int {
    if x < low {
        low
    } else if x > high {
        high
    } else {
        x
    }
}

/// The number of workers for an archive of `entries` entries.
///
/// A positive `configured` count is an override, capped by the number of
/// entries. Zero selects the automatic count: one worker per twenty entries,
/// at least one and at most `cpus`.
pub open spec fn worker_count_for(configured: int, entries: int, cpus: int) -> int {
    if configured > 0 {
        if configured <= entries {
            configured
        } else {
            entries
        }
    } else {
        clamp_between(entries / 20, 1, cpus)
    }
}

/// Computes the number of workers for an archive of `entries` entries on a
/// machine with `cpus` logical processors.
pub fn worker_count(configured: usize, entries: usize, cpus: usize) -> (workers: usize)
    requires
        configured == 0 ==> cpus >= 1,
    ensures
        workers == worker_count_for(configured as int, entries as int, cpus as int),
{
    if configured > 0 {
        if configured <= entries {
            configured
        } else {
            entries
        }
    } else {
        let per_twenty: usize = entries / ENTRIES_PER_WORKER;
        if per_twenty < 1 {
            1
        } else if per_twenty > cpus {
            cpus
        } else {
            per_twenty
        }
    }
}

/// The automatic worker count always lies between one and the number of
/// logical processors, is one for fewer than forty entries, and reaches the
/// processor count once there are twenty entries per processor.
pub proof fn lemma_automatic_worker_count(entries: int, cpus: int)
    requires
        entries >= 0,
        cpus >= 1,
    ensures
        1 <= worker_count_for(0, entries, cpus) <= cpus,
        entries < 40 ==> worker_count_for(0, entries, cpus) == 1,
        entries >= 20 * cpus ==> worker_count_for(0, entries, cpus) == cpus,
        20 <= entries < 20 * cpus ==> worker_count_for(0, entries, cpus) == entries / 20,
{
}

/// An overriding worker count never exceeds the number of entries, and is
/// used as given whenever the archive has at least that many entries.
pub proof fn lemma_configured_worker_count(configured: int, entries: int, cpus: int)
    requires
        configured > 0,
        entries >= 0,
    ensures
        worker_count_for(configured, entries, cpus) <= entries,
        worker_count_for(configured, entries, cpus) <= configured,
        configured <= entries ==> worker_count_for(configured, entries, cpus) == configured,
{
}

/// A contiguous run of entry indices, from `start` up to but excluding `end`.
#[derive(Clone, Copy, Debug, PartialEq, Eq, Structural)]
pub struct ChunkRange {
    pub start: usize,
    pub end: usize,
}

impl ChunkRange {
    /// The number of indices in this range.
    pub fn len(&self) -> (n: usize)
        ensures
            n == if self.start <= self.end {
                self.end - self.start
            } else {
                0
            },
    {
        if self.start <= self.end {
            self.end - self.start
        } else {
            0
        }
    }

    /// Whether this range holds no index at all.
    pub fn is_empty(&self) -> (empty: bool)
        ensures
            empty == (self.start >= self.end),
    {
        self.start >= self.end
    }
}

/// `n` divided by `d`, rounded up.
pub open spec fn ceil_div(n: int, d: int) -> int {
    if n % d == 0 {
        n / d
    } else {
        n / d + 1
    }
}

/// The number of entries in a full chunk when `entries` entries are shared
/// out among `workers` workers.
pub open spec fn chunk_len(entries: int, workers: int) -> int {
    ceil_div(entries, workers)
}

/// The index at which chunk `k` starts, which is also where chunk `k - 1`
/// ends: `k` full chunks, but never past the last entry.
pub open spec fn chunk_bound(entries: int, workers: int, k: int) -> int {
    let full = k * chunk_len(entries, workers);
    if full < entries {
        full
    } else {
        entries
    }
}

/// Whether `chunks` is the static partition of `entries` entries among
/// `workers` workers: one range per worker, in index order, each a full chunk
/// until the entries run out.
pub open spec fn is_partition(chunks: Seq<ChunkRange>, entries: int, workers: int) -> bool {
    &&& chunks.len() == workers
    &&& forall|k: int|
        0 <= k < workers ==> (#[trigger] chunks[k]).start == chunk_bound(entries, workers, k)
            && chunks[k].end == chunk_bound(entries, workers, k + 1)
}

/// Computes the size of a full chunk.
pub fn chunk_size(entries: usize, workers: usize) -> (size: usize)
    requires
        workers >= 1,
    ensures
        size == chunk_len(entries as int, workers as int),
{
    let whole: usize = entries / workers;
    if entries % workers == 0 {
        whole
    } else {
        assert(whole < entries) by (nonlinear_arith)
            requires
                whole == entries / workers,
                entries % workers != 0,
                workers >= 1,
        ;
        whole + 1
    }
}

/// Splits the indices `0..entries` into one range per worker.
///
/// Every range but the last non-empty one has `chunk_len` entries. When there
/// are fewer full chunks than workers, the remaining workers get an empty
/// range at the end. With no workers there is nothing to hand out and the
/// result is empty.
pub fn chunk_ranges(entries: usize, workers: usize) -> (chunks: Vec<ChunkRange>)
    ensures
        is_partition(chunks@, entries as int, workers as int),
{
    let mut chunks: Vec<ChunkRange> = Vec::new();
    if workers == 0 {
        return chunks;
    }
    let size: usize = chunk_size(entries, workers);
    let mut start: usize = 0;
    let mut k: usize = 0;
    while k < workers
        invariant
            workers >= 1,
            k <= workers,
            size == chunk_len(entries as int, workers as int),
            start == chunk_bound(entries as int, workers as int, k as int),
            start <= entries,
            chunks@.len() == k,
            forall|j: int|
                0 <= j < k ==> (#[trigger] chunks@[j]).start == chunk_bound(
                    entries as int,
                    workers as int,
                    j,
                ) && chunks@[j].end == chunk_bound(entries as int, workers as int, j + 1),
        decreases workers - k,
    {
        let end: usize = if entries - start <= size {
            entries
        } else {
            start + size
        };
        proof {
            lemma_next_bound(entries as int, workers as int, k as int);
        }
        chunks.push(ChunkRange { start, end });
        start = end;
        k = k + 1;
    }
    chunks
}

/// Each bound is the one before it plus one full chunk, cut off at the
/// number of entries.
proof fn lemma_next_bound(entries: int, workers: int, k: int)
    requires
        entries >= 0,
        workers >= 1,
        k >= 0,
    ensures
        chunk_len(entries, workers) >= 0,
        chunk_bound(entries, workers, k + 1) == if entries - chunk_bound(entries, workers, k)
            <= chunk_len(entries, workers) {
            entries
        } else {
            chunk_bound(entries, workers, k) + chunk_len(entries, workers)
        },
{
    let size = chunk_len(entries, workers);
    assert(size >= 0) by (nonlinear_arith)
        requires
            size == ceil_div(entries, workers),
            entries >= 0,
            workers >= 1,
    ;
    assert((k + 1) * size == k * size + size) by (nonlinear_arith);
    assert(k * size >= 0) by (nonlinear_arith)
        requires
            k >= 0,
            size >= 0,
    ;
}

/// The chunks follow one another without gap or overlap, start at the first
/// entry and end after the last, and none is longer than a full chunk.
pub proof fn lemma_chunks_tile(entries: int, workers: int, k: int)
    requires
        entries >= 0,
        workers >= 1,
        0 <= k < workers,
    ensures
        chunk_bound(entries, workers, 0) == 0,
        chunk_bound(entries, workers, workers) == entries,
        0 <= chunk_bound(entries, workers, k) <= chunk_bound(entries, workers, k + 1) <= entries,
        chunk_bound(entries, workers, k + 1) - chunk_bound(entries, workers, k) <= chunk_len(
            entries,
            workers,
        ),
{
    let size = chunk_len(entries, workers);
    lemma_next_bound(entries, workers, k);
    assert(0 * size == 0) by (nonlinear_arith);
    assert(k * size >= 0) by (nonlinear_arith)
        requires
            k >= 0,
            size >= 0,
    ;
    assert(workers * size >= entries) by (nonlinear_arith)
        requires
            size == ceil_div(entries, workers),
            entries >= 0,
            workers >= 1,
    ;
}

/// Every entry belongs to exactly one chunk: the one numbered by the entry's
/// index divided by the chunk length.
pub proof fn lemma_entry_in_one_chunk(entries: int, workers: int, index: int, k: int)
    requires
        workers >= 1,
        0 <= index < entries,
        0 <= k < workers,
    ensures
        chunk_len(entries, workers) >= 1,
        0 <= index / chunk_len(entries, workers) < workers,
        (chunk_bound(entries, workers, k) <= index < chunk_bound(entries, workers, k + 1)) <==> k
            == index / chunk_len(entries, workers),
{
    let size = chunk_len(entries, workers);
    assert(size >= 1 && workers * size >= entries) by (nonlinear_arith)
        requires
            size == ceil_div(entries, workers),
            entries >= 1,
            workers >= 1,
    ;
    let home = index / size;
    assert(0 <= home < workers && home * size <= index < (home + 1) * size) by (nonlinear_arith)
        requires
            home == index / size,
            size >= 1,
            0 <= index < entries,
            workers * size >= entries,
    ;
    assert((k + 1) * size == k * size + size) by (nonlinear_arith);
    if k < home {
        assert((k + 1) * size <= home * size) by (nonlinear_arith)
            requires
                k + 1 <= home,
                size >= 1,
        ;
    } else if k > home {
        assert((home + 1) * size <= k * size) by (nonlinear_arith)
            requires
                home + 1 <= k,
                size >= 1,
        ;
    }
}

/// The number of logical processors of this machine.
///
/// Trusted: the body calls `num_cpus::get`, which Verus does not read. That
/// function's documentation promises a result of at least one, and that is
/// all the contract claims; the number itself depends on the machine and on
/// the limits set for the process, so two calls may differ.
#[verifier::external_body]
fn logical_cpus() -> (cpus: usize)
    ensures
        cpus >= 1,
{
    num_cpus::get()
}

/// Chooses the number of workers for an archive of `entries` entries on
/// this machine.
///
/// An overriding count does not depend on the machine. The automatic count
/// is the one that `worker_count_for` gives for this machine's number of
/// logical processors, which is at least one.
pub fn select_workers(configured: usize, entries: usize) -> (workers: usize)
    ensures
        exists|cpus: int|
            cpus >= 1 && workers == #[trigger] worker_count_for(
                configured as int,
                entries as int,
                cpus,
            ),
        configured > 0 ==> workers == worker_count_for(configured as int, entries as int, 1),
        configured == 0 ==> workers >= 1 && (workers == 1 || 20 * workers <= entries),
{
    let cpus: usize = logical_cpus();
    worker_count(configured, entries, cpus)
}

/// The indices of `range`, in order.
pub open spec fn range_indices(range: ChunkRange) -> Seq<int> {
    Seq::new(
        if range.start <= range.end {
            (range.end - range.start) as nat
        } else {
            0nat
        },
        |i: int| range.start + i,
    )
}

/// The indices of all of `chunks`, chunk after chunk.
pub open spec fn indices_of(chunks: Seq<ChunkRange>) -> Seq<int>
    decreases chunks.len(),
{
    if chunks.len() == 0 {
        Seq::empty()
    } else {
        indices_of(chunks.drop_last()) + range_indices(chunks.last())
    }
}

/// The first `count` chunks of a partition hold the indices below the bound
/// of chunk `count`, each once and in order.
proof fn lemma_leading_chunks(chunks: Seq<ChunkRange>, entries: int, workers: int, count: int)
    requires
        entries >= 0,
        workers >= 1,
        is_partition(chunks, entries, workers),
        0 <= count <= workers,
    ensures
        indices_of(chunks.subrange(0, count)) == Seq::new(
            chunk_bound(entries, workers, count) as nat,
            |i: int| i,
        ),
        0 <= chunk_bound(entries, workers, count) <= entries,
    decreases count,
{
    let leading = chunks.subrange(0, count);
    if count == 0 {
        assert(0 * chunk_len(entries, workers) == 0) by (nonlinear_arith);
        assert(indices_of(leading) =~= Seq::new(0nat, |i: int| i));
    } else {
        lemma_leading_chunks(chunks, entries, workers, count - 1);
        lemma_chunks_tile(entries, workers, count - 1);
        assert(leading.drop_last() =~= chunks.subrange(0, count - 1));
        assert(leading.last() == chunks[count - 1]);
        assert(indices_of(leading) =~= Seq::new(
            chunk_bound(entries, workers, count) as nat,
            |i: int| i,
        ));
    }
}

/// The chunks of a partition, taken together, hold every entry index once
/// and in order: a run over the chunks handles exactly the entries that a
/// single run over the whole archive handles.
pub proof fn lemma_partition_holds_every_entry_once(
    chunks: Seq<ChunkRange>,
    entries: usize,
    workers: int,
)
    requires
        workers >= 1,
        is_partition(chunks, entries as int, workers),
    ensures
        indices_of(chunks) == range_indices(ChunkRange { start: 0, end: entries }),
{
    lemma_leading_chunks(chunks, entries as int, workers, workers);
    lemma_chunks_tile(entries as int, workers, 0);
    assert(chunks.subrange(0, workers) =~= chunks);
    assert(range_indices(ChunkRange { start: 0, end: entries }) =~= Seq::new(
        entries as nat,
        |i: int| i,
    ));
}

} // verus!
