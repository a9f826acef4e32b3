use zip_extractor::engine::{EntryPlan, ExtractionMode};
use zip_extractor::extractor::{
    ExtractionPlan, ZipExtractor, DEFAULT_READ_BUFFER_SIZE, DEFAULT_WRITE_BUFFER_SIZE,
};
use zip_extractor::pipeline::CopyAction;
use zip_extractor::workers::ChunkRange;

fn range(start: usize, end: usize) -> ChunkRange {
    ChunkRange { start, end }
}

#[test]
fn defaults_are_two_and_four_mebibytes_and_automatic_workers() {
    let extractor = ZipExtractor::new("archive.zip", "out");
    assert_eq!(extractor.zip_path(), "archive.zip");
    assert_eq!(extractor.output_dir(), "out");
    assert_eq!(extractor.read_buffer(), 2 * 1024 * 1024);
    assert_eq!(extractor.write_buffer(), 4 * 1024 * 1024);
    assert_eq!(extractor.configured_workers(), 0);
    assert_eq!(DEFAULT_READ_BUFFER_SIZE, 2_097_152);
    assert_eq!(DEFAULT_WRITE_BUFFER_SIZE, 4_194_304);
}

#[test]
fn builders_change_one_setting_each() {
    let extractor = ZipExtractor::new("a.zip", "target").read_buffer_size(1024);
    assert_eq!(extractor.read_buffer(), 1024);
    assert_eq!(extractor.write_buffer(), DEFAULT_WRITE_BUFFER_SIZE);
    assert_eq!(extractor.configured_workers(), 0);

    let extractor = extractor.write_buffer_size(512);
    assert_eq!(extractor.read_buffer(), 1024);
    assert_eq!(extractor.write_buffer(), 512);
    assert_eq!(extractor.configured_workers(), 0);

    let extractor = extractor.worker_threads(6);
    assert_eq!(extractor.read_buffer(), 1024);
    assert_eq!(extractor.write_buffer(), 512);
    assert_eq!(extractor.configured_workers(), 6);
    assert_eq!(extractor.zip_path(), "a.zip");
    assert_eq!(extractor.output_dir(), "target");
}

#[test]
fn twenty_five_entries_on_eight_processors_are_extracted_by_one_worker() {
    let plan = ZipExtractor::new("a.zip", "out").plan_on(25, 8);
    assert_eq!(plan.workers, 1);
    assert_eq!(plan.mode, ExtractionMode::Sequential);
    assert_eq!(plan.chunks, vec![range(0, 25)]);
}

#[test]
fn five_entries_on_four_processors_are_extracted_by_one_worker() {
    let plan = ZipExtractor::new("a.zip", "out").plan_on(5, 4);
    assert_eq!(plan.workers, 1);
    assert_eq!(plan.mode, ExtractionMode::Sequential);
    assert_eq!(plan.chunks, vec![range(0, 5)]);
}

#[test]
fn two_hundred_entries_on_four_processors_use_every_processor() {
    let plan = ZipExtractor::new("a.zip", "out").plan_on(200, 4);
    assert_eq!(plan.workers, 4);
    assert_eq!(plan.mode, ExtractionMode::Parallel);
    assert_eq!(plan.chunks, vec![range(0, 50), range(50, 100), range(100, 150), range(150, 200)]);
}

#[test]
fn a_configured_count_overrides_the_heuristic() {
    let extractor = ZipExtractor::new("a.zip", "out").worker_threads(3);
    let plan = extractor.plan_on(10, 1);
    assert_eq!(plan.workers, 3);
    assert_eq!(plan.mode, ExtractionMode::Parallel);
    assert_eq!(plan.chunks, vec![range(0, 4), range(4, 8), range(8, 10)]);
    let same = extractor.plan(10);
    assert_eq!(same.workers, 3);
    assert_eq!(same.chunks, plan.chunks);
}

#[test]
fn a_configured_count_is_capped_by_the_entries() {
    let extractor = ZipExtractor::new("a.zip", "out").worker_threads(16);
    let plan = extractor.plan_on(5, 4);
    assert_eq!(plan.workers, 5);
    assert_eq!(plan.mode, ExtractionMode::Parallel);
    assert_eq!(
        plan.chunks,
        vec![range(0, 1), range(1, 2), range(2, 3), range(3, 4), range(4, 5)]
    );
}

#[test]
fn a_single_configured_worker_extracts_sequentially() {
    let plan = ZipExtractor::new("a.zip", "out").worker_threads(1).plan_on(500, 8);
    assert_eq!(plan.workers, 1);
    assert_eq!(plan.mode, ExtractionMode::Sequential);
    assert_eq!(plan.chunks, vec![range(0, 500)]);
}

#[test]
fn an_empty_archive_is_extracted_sequentially() {
    let automatic = ZipExtractor::new("a.zip", "out").plan_on(0, 8);
    assert_eq!(automatic.workers, 1);
    assert_eq!(automatic.mode, ExtractionMode::Sequential);
    assert_eq!(automatic.chunks, vec![range(0, 0)]);

    let configured = ZipExtractor::new("a.zip", "out").worker_threads(4).plan_on(0, 8);
    assert_eq!(configured.workers, 0);
    assert_eq!(configured.mode, ExtractionMode::Sequential);
    assert_eq!(configured.chunks, vec![range(0, 0)]);
}

#[test]
fn the_plan_on_this_machine_follows_the_heuristic() {
    let small = ZipExtractor::new("a.zip", "out").plan(25);
    assert_eq!(small.workers, 1);
    assert_eq!(small.mode, ExtractionMode::Sequential);
    assert_eq!(small.chunks, vec![range(0, 25)]);

    let large = ZipExtractor::new("a.zip", "out").plan(100_000);
    assert!(large.workers >= 1);
    assert!(large.workers <= 5_000);
    if large.workers > 1 {
        assert_eq!(large.mode, ExtractionMode::Parallel);
        assert_eq!(large.chunks.len(), large.workers);
        assert_eq!(large.chunks[0].start, 0);
        assert_eq!(large.chunks[large.workers - 1].end, 100_000);
    } else {
        assert_eq!(large.mode, ExtractionMode::Sequential);
        assert_eq!(large.chunks, vec![range(0, 100_000)]);
    }
}

#[test]
fn a_plan_for_a_given_number_of_workers() {
    let plan = ExtractionPlan::with_workers(7, 2);
    assert_eq!(plan.mode, ExtractionMode::Parallel);
    assert_eq!(plan.chunks, vec![range(0, 4), range(4, 7)]);
    let first = plan.cursor(0);
    assert_eq!(first.current(), Some(0));
    let second = plan.cursor(1);
    assert_eq!(second.current(), Some(4));
}

#[test]
fn entries_are_planned_below_the_configured_output_directory() {
    let extractor = ZipExtractor::new("a.zip", "/srv/unpacked");
    assert_eq!(
        extractor.plan_entry("../../etc/passwd", false),
        EntryPlan::CopyFile { path: "/srv/unpacked/etc/passwd".to_string() }
    );
    assert_eq!(
        extractor.plan_entry("docs//img/", true),
        EntryPlan::CreateDirectory { path: "/srv/unpacked/docs/img".to_string() }
    );
}

#[test]
fn copies_are_written_through_the_configured_buffer() {
    let extractor = ZipExtractor::new("a.zip", "out").write_buffer_size(12345);
    let mut pipeline = extractor.start_copy();
    pipeline.advance(zip_extractor::pipeline::CopyEvent::Done);
    assert_eq!(pipeline.action(), CopyAction::OpenDestination { buffer: 12345 });
}
