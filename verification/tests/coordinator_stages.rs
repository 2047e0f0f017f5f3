use loadgen::coordinator::{running_result, Stage, StageResult, TaskEnd};

#[test]
fn a_run_passes_through_every_stage_in_order() {
    let mut stage = Stage::start();
    assert_eq!(stage, Stage::Initializing);
    let expected = [
        Stage::Running,
        Stage::Aggregating,
        Stage::CleaningUp,
        Stage::Exporting,
        Stage::Done,
    ];
    for next in expected {
        assert!(!stage.is_final());
        stage = stage.advance(StageResult::Succeeded);
        assert_eq!(stage, next);
    }
    assert!(stage.is_final());
}

#[test]
fn a_failure_in_any_stage_aborts_the_run() {
    let stages = [
        Stage::Initializing,
        Stage::Running,
        Stage::Aggregating,
        Stage::CleaningUp,
        Stage::Exporting,
    ];
    for stage in stages {
        assert_eq!(stage.advance(StageResult::Failed), Stage::Aborted);
    }
    assert!(Stage::Aborted.is_final());
}

#[test]
fn a_run_that_is_over_stays_over() {
    assert_eq!(Stage::Done.advance(StageResult::Succeeded), Stage::Done);
    assert_eq!(Stage::Done.advance(StageResult::Failed), Stage::Done);
    assert_eq!(Stage::Aborted.advance(StageResult::Succeeded), Stage::Aborted);
    assert_eq!(Stage::Aborted.advance(StageResult::Failed), Stage::Aborted);
}

#[test]
fn a_store_that_does_not_open_ends_the_run_before_any_task() {
    let mut stage = Stage::start().advance(StageResult::Failed);
    assert_eq!(stage, Stage::Aborted);
    for _ in 0..10 {
        stage = stage.advance(StageResult::Succeeded);
        assert!(stage != Stage::Running);
        assert!(stage != Stage::Exporting);
        assert!(stage != Stage::Done);
    }
}

#[test]
fn a_failed_cleanup_leaves_no_export() {
    let stage = Stage::start()
        .advance(StageResult::Succeeded)
        .advance(StageResult::Succeeded)
        .advance(StageResult::Succeeded);
    assert_eq!(stage, Stage::CleaningUp);
    assert_eq!(stage.advance(StageResult::Failed), Stage::Aborted);
}

#[test]
fn running_succeeds_when_every_task_completed() {
    assert_eq!(running_result(&vec![]), StageResult::Succeeded);
    assert_eq!(running_result(&vec![TaskEnd::Completed]), StageResult::Succeeded);
    assert_eq!(
        running_result(&vec![TaskEnd::Completed; 8]),
        StageResult::Succeeded
    );
}

#[test]
fn running_fails_when_one_task_faulted() {
    assert_eq!(running_result(&vec![TaskEnd::Faulted]), StageResult::Failed);
    assert_eq!(
        running_result(&vec![TaskEnd::Completed, TaskEnd::Completed, TaskEnd::Faulted]),
        StageResult::Failed
    );
    assert_eq!(
        running_result(&vec![TaskEnd::Faulted, TaskEnd::Completed]),
        StageResult::Failed
    );
}

#[test]
fn only_a_run_that_is_done_exits_with_zero() {
    assert_eq!(Stage::Done.exit_code(), 0);
    assert_eq!(Stage::Aborted.exit_code(), 1);
    assert_eq!(Stage::Initializing.exit_code(), 1);
    assert_eq!(Stage::Exporting.exit_code(), 1);
}
