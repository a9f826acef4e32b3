use zip_extractor::engine::{
    plan_entry, EntryCursor, EntryFailure, EntryPlan, ExtractError, ExtractionMode, Verdict,
};
use zip_extractor::pipeline::CopyFailure;
use zip_extractor::workers::ChunkRange;

fn range(start: usize, end: usize) -> ChunkRange {
    ChunkRange { start, end }
}

#[test]
fn a_directory_entry_is_created() {
    let plan = plan_entry("out", "a/b/", true);
    assert_eq!(plan, EntryPlan::CreateDirectory { path: "out/a/b".to_string() });
    assert!(plan.is_directory());
    assert_eq!(plan.path(), "out/a/b");
}

#[test]
fn a_file_entry_is_copied() {
    let plan = plan_entry("out", "a/b.txt", false);
    assert_eq!(plan, EntryPlan::CopyFile { path: "out/a/b.txt".to_string() });
    assert!(!plan.is_directory());
    assert_eq!(plan.path(), "out/a/b.txt");
}

#[test]
fn a_hostile_entry_is_planned_below_the_output_directory() {
    let plan = plan_entry("out", "../../etc/passwd", false);
    assert_eq!(plan, EntryPlan::CopyFile { path: "out/etc/passwd".to_string() });
}

#[test]
fn a_run_without_failure_visits_its_range_in_order() {
    for mode in [ExtractionMode::Sequential, ExtractionMode::Parallel] {
        let mut cursor = EntryCursor::over(mode, range(3, 7));
        let mut visited: Vec<usize> = Vec::new();
        while let Some(index) = cursor.current() {
            visited.push(index);
            assert_eq!(cursor.record(Ok(())), Verdict::Proceed);
        }
        assert_eq!(visited, vec![3, 4, 5, 6]);
        assert!(cursor.is_finished());
        assert_eq!(cursor.skipped(), 0);
        assert_eq!(cursor.result(), Ok(()));
    }
}

#[test]
fn a_sequential_run_stops_at_the_first_failure() {
    let mut cursor = EntryCursor::over(ExtractionMode::Sequential, range(0, 5));
    assert_eq!(cursor.record(Ok(())), Verdict::Proceed);
    assert_eq!(cursor.record(Ok(())), Verdict::Proceed);
    assert_eq!(cursor.current(), Some(2));
    let error = ExtractError::Entry { index: 2, failure: EntryFailure::Copy(CopyFailure::Write) };
    assert_eq!(
        cursor.record(Err(EntryFailure::Copy(CopyFailure::Write))),
        Verdict::Stopped(error)
    );
    assert_eq!(cursor.current(), None);
    assert!(cursor.is_finished());
    assert_eq!(cursor.result(), Err(error));
    assert_eq!(cursor.skipped(), 0);
    assert_eq!(cursor.record(Ok(())), Verdict::Idle);
    assert_eq!(cursor.record(Err(EntryFailure::Retrieval)), Verdict::Idle);
    assert_eq!(cursor.result(), Err(error));
}

#[test]
fn a_parallel_worker_skips_a_failed_entry_and_goes_on() {
    let mut cursor = EntryCursor::over(ExtractionMode::Parallel, range(10, 14));
    assert_eq!(
        cursor.record(Err(EntryFailure::Retrieval)),
        Verdict::Skipped { index: 10, failure: EntryFailure::Retrieval }
    );
    assert_eq!(cursor.current(), Some(11));
    assert_eq!(cursor.record(Ok(())), Verdict::Proceed);
    assert_eq!(
        cursor.record(Err(EntryFailure::CreateDirectory)),
        Verdict::Skipped { index: 12, failure: EntryFailure::CreateDirectory }
    );
    assert_eq!(
        cursor.record(Err(EntryFailure::Copy(CopyFailure::Read))),
        Verdict::Skipped { index: 13, failure: EntryFailure::Copy(CopyFailure::Read) }
    );
    assert_eq!(cursor.current(), None);
    assert!(cursor.is_finished());
    assert_eq!(cursor.skipped(), 3);
    assert_eq!(cursor.result(), Ok(()));
    assert_eq!(cursor.record(Ok(())), Verdict::Idle);
    assert_eq!(cursor.skipped(), 3);
}

#[test]
fn the_two_modes_differ_on_the_same_failures() {
    let outcomes = [Ok(()), Err(EntryFailure::Retrieval), Ok(()), Ok(())];
    let mut sequential = EntryCursor::over(ExtractionMode::Sequential, range(0, 4));
    let mut parallel = EntryCursor::over(ExtractionMode::Parallel, range(0, 4));
    let mut handled_sequentially = 0;
    let mut handled_in_parallel = 0;
    for outcome in outcomes {
        if sequential.current().is_some() {
            handled_sequentially += 1;
        }
        if parallel.current().is_some() {
            handled_in_parallel += 1;
        }
        sequential.record(outcome);
        parallel.record(outcome);
    }
    assert_eq!(handled_sequentially, 2);
    assert_eq!(handled_in_parallel, 4);
    assert_eq!(
        sequential.result(),
        Err(ExtractError::Entry { index: 1, failure: EntryFailure::Retrieval })
    );
    assert_eq!(parallel.result(), Ok(()));
}

#[test]
fn an_empty_range_is_finished_at_once() {
    for mode in [ExtractionMode::Sequential, ExtractionMode::Parallel] {
        let mut cursor = EntryCursor::over(mode, range(5, 5));
        assert_eq!(cursor.current(), None);
        assert!(cursor.is_finished());
        assert_eq!(cursor.record(Err(EntryFailure::Retrieval)), Verdict::Idle);
        assert_eq!(cursor.result(), Ok(()));

        let backwards = EntryCursor::over(mode, range(9, 2));
        assert_eq!(backwards.current(), None);
        assert!(backwards.is_finished());
    }
}

#[test]
fn the_last_index_can_be_walked() {
    let mut cursor = EntryCursor::over(ExtractionMode::Parallel, range(usize::MAX - 1, usize::MAX));
    assert_eq!(cursor.current(), Some(usize::MAX - 1));
    assert_eq!(
        cursor.record(Err(EntryFailure::Retrieval)),
        Verdict::Skipped { index: usize::MAX - 1, failure: EntryFailure::Retrieval }
    );
    assert_eq!(cursor.current(), None);
}
