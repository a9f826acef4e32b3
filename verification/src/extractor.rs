//! The extractor's configuration and the plan it makes for an archive.

use vstd::prelude::*;
use crate::engine::{plan_entry, EntryCursor, EntryPlan, ExtractionMode};
use crate::pipeline::CopyPipeline;
use crate::pipeline::initial;
use crate::sanitize::output_location;
use crate::workers::{
    chunk_ranges, is_partition, select_workers, worker_count, worker_count_for, ChunkRange,
};

verus! {

/// The size of the buffer that the archive is read through by default: 2 MiB.
pub const DEFAULT_READ_BUFFER_SIZE: usize = 2097152;

/// The size of the buffer that each file is written through by default: 4 MiB.
pub const DEFAULT_WRITE_BUFFER_SIZE: usize = 4194304;

/// An extractor's configuration as contracts see it.
pub struct ExtractorView {
    /// The path of the archive.
    pub zip_path: Seq<char>,
    /// The directory that the entries are extracted into.
    pub output_dir: Seq<char>,
    /// The size in bytes of the buffer that the archive is read through.
    pub read_buffer_size: usize,
    /// The size in bytes of the buffer that each file is written through.
    pub write_buffer_size: usize,
    /// The number of workers; zero leaves the choice to the extractor.
    pub worker_threads: usize,
}

/// Extracts an archive into a directory, with tunable buffers and an
/// optional pool of workers.
#[derive(Debug)]
pub struct ZipExtractor {
    zip_path: String,
    output_dir: String,
    read_buffer_size: usize,
    write_buffer_size: usize,
    worker_threads: usize,
}

impl View for ZipExtractor {
    type V = ExtractorView;

    closed spec fn view(&self) -> ExtractorView {
        ExtractorView {
            zip_path: self.zip_path@,
            output_dir: self.output_dir@,
            read_buffer_size: self.read_buffer_size,
            write_buffer_size: self.write_buffer_size,
            worker_threads: self.worker_threads,
        }
    }
}

/// How an archive is going to be extracted.
#[derive(Debug)]
pub struct ExtractionPlan {
    /// Sequential, or parallel when more than one worker was chosen.
    pub mode: ExtractionMode,
    /// The number of workers that was chosen.
    pub workers: usize,
    /// The run of entries for each worker of a parallel extraction; for a
    /// sequential one, the single run of all entries.
    pub chunks: Vec<ChunkRange>,
}

/// Whether `plan` is the plan for an archive of `entries` entries when
/// `workers` workers were chosen: parallel with one chunk per worker if there
/// is more than one worker, else sequential over all entries.
pub open spec fn is_plan_for(plan: ExtractionPlan, entries: usize, workers: int) -> bool {
    &&& plan.workers == workers
    &&& if workers > 1 {
        plan.mode is Parallel && is_partition(plan.chunks@, entries as int, workers)
    } else {
        plan.mode is Sequential && plan.chunks@ == seq![ChunkRange { start: 0, end: entries }]
    }
}

impl ExtractionPlan {
    /// Makes the plan for an archive of `entries` entries and a number of
    /// workers that was already chosen.
    pub fn with_workers(entries: usize, workers: usize) -> (plan: ExtractionPlan)
        ensures
            is_plan_for(plan, entries, workers as int),
    {
        if workers > 1 {
            ExtractionPlan {
                mode: ExtractionMode::Parallel,
                workers,
                chunks: chunk_ranges(entries, workers),
            }
        } else {
            let mut chunks: Vec<ChunkRange> = Vec::new();
            chunks.push(ChunkRange { start: 0, end: entries });
            assert(chunks@ =~= seq![ChunkRange { start: 0, end: entries }]);
            ExtractionPlan { mode: ExtractionMode::Sequential, workers, chunks }
        }
    }

    /// The cursor for the chunk at `index`, with this plan's mode.
    pub fn cursor(&self, index: usize) -> (cursor: EntryCursor)
        requires
            index < self.chunks@.len(),
        ensures
            cursor@ == crate::engine::cursor_at_start(self.mode, self.chunks@[index as int]),
    {
        EntryCursor::over(self.mode, self.chunks[index])
    }
}

impl ZipExtractor {
    /// An extractor for the archive at `zip_path` that extracts into
    /// `output_dir`, with the default buffer sizes and the number of workers
    /// left to the extractor.
    pub fn new(zip_path: &str, output_dir: &str) -> (extractor: ZipExtractor)
        ensures
            extractor@ == (ExtractorView {
                zip_path: zip_path@,
                output_dir: output_dir@,
                read_buffer_size: DEFAULT_READ_BUFFER_SIZE,
                write_buffer_size: DEFAULT_WRITE_BUFFER_SIZE,
                worker_threads: 0,
            }),
    {
        ZipExtractor {
            zip_path: zip_path.to_owned(),
            output_dir: output_dir.to_owned(),
            read_buffer_size: DEFAULT_READ_BUFFER_SIZE,
            write_buffer_size: DEFAULT_WRITE_BUFFER_SIZE,
            worker_threads: 0,
        }
    }

    /// Sets the size in bytes of the buffer that the archive is read through.
    pub fn read_buffer_size(self, size: usize) -> (extractor: ZipExtractor)
        ensures
            extractor@ == (ExtractorView { read_buffer_size: size, ..self@ }),
    {
        ZipExtractor {
            zip_path: self.zip_path,
            output_dir: self.output_dir,
            read_buffer_size: size,
            write_buffer_size: self.write_buffer_size,
            worker_threads: self.worker_threads,
        }
    }

    /// Sets the size in bytes of the buffer that each file is written
    /// through.
    pub fn write_buffer_size(self, size: usize) -> (extractor: ZipExtractor)
        ensures
            extractor@ == (ExtractorView { write_buffer_size: size, ..self@ }),
    {
        ZipExtractor {
            zip_path: self.zip_path,
            output_dir: self.output_dir,
            read_buffer_size: self.read_buffer_size,
            write_buffer_size: size,
            worker_threads: self.worker_threads,
        }
    }

    /// Sets the number of workers; zero leaves the choice to the extractor.
    pub fn worker_threads(self, count: usize) -> (extractor: ZipExtractor)
        ensures
            extractor@ == (ExtractorView { worker_threads: count, ..self@ }),
    {
        ZipExtractor {
            zip_path: self.zip_path,
            output_dir: self.output_dir,
            read_buffer_size: self.read_buffer_size,
            write_buffer_size: self.write_buffer_size,
            worker_threads: count,
        }
    }

    /// The path of the archive.
    pub fn zip_path(&self) -> (path: &str)
        ensures
            path@ == self@.zip_path,
    {
        self.zip_path.as_str()
    }

    /// The directory that the entries are extracted into.
    pub fn output_dir(&self) -> (path: &str)
        ensures
            path@ == self@.output_dir,
    {
        self.output_dir.as_str()
    }

    /// The size in bytes of the buffer that the archive is read through.
    pub fn read_buffer(&self) -> (size: usize)
        ensures
            size == self@.read_buffer_size,
    {
        self.read_buffer_size
    }

    /// The size in bytes of the buffer that each file is written through.
    pub fn write_buffer(&self) -> (size: usize)
        ensures
            size == self@.write_buffer_size,
    {
        self.write_buffer_size
    }

    /// The configured number of workers; zero when the choice is left to the
    /// extractor.
    pub fn configured_workers(&self) -> (count: usize)
        ensures
            count == self@.worker_threads,
    {
        self.worker_threads
    }

    /// Makes the plan for an archive of `entries` entries on a machine with
    /// `cpus` logical processors.
    pub fn plan_on(&self, entries: usize, cpus: usize) -> (plan: ExtractionPlan)
        requires
            self@.worker_threads == 0 ==> cpus >= 1,
        ensures
            is_plan_for(
                plan,
                entries,
                worker_count_for(self@.worker_threads as int, entries as int, cpus as int),
            ),
    {
        let workers: usize = worker_count(self.worker_threads, entries, cpus);
        ExtractionPlan::with_workers(entries, workers)
    }

    /// Makes the plan for an archive of `entries` entries on this machine.
    ///
    /// The plan is the one that `plan_on` makes for this machine's number of
    /// logical processors, which is at least one.
    pub fn plan(&self, entries: usize) -> (plan: ExtractionPlan)
        ensures
            exists|cpus: int|
                cpus >= 1 && is_plan_for(
                    plan,
                    entries,
                    #[trigger] worker_count_for(self@.worker_threads as int, entries as int, cpus),
                ),
            self@.worker_threads > 0 ==> is_plan_for(
                plan,
                entries,
                worker_count_for(self@.worker_threads as int, entries as int, 1),
            ),
    {
        let workers: usize = select_workers(self.worker_threads, entries);
        ExtractionPlan::with_workers(entries, workers)
    }

    /// Plans the entry stored as `name`: where it lands below the output
    /// directory, and whether it is created as a directory or copied as a
    /// file.
    pub fn plan_entry(&self, name: &str, is_dir: bool) -> (plan: EntryPlan)
        ensures
            plan.target() == output_location(self@.output_dir, name@),
            (plan is CreateDirectory) == is_dir,
            (plan is CopyFile) == !is_dir,
    {
        plan_entry(self.output_dir.as_str(), name, is_dir)
    }

    /// Starts the copy of one file entry, written through a buffer of the
    /// configured size.
    pub fn start_copy(&self) -> (pipeline: CopyPipeline)
        ensures
            pipeline@ == initial(self@.write_buffer_size as nat),
    {
        CopyPipeline::start(self.write_buffer_size)
    }
}

} // verus!
