use wabasen::errors::WabaError;
use wabasen::pipeline::{Action, Event, Phase, Pipeline};

#[test]
fn successful_operation_runs_all_stages_then_replaces_input() {
    let mut p = Pipeline::new();
    assert_eq!(p.phase, Phase::Verifying);
    assert_eq!(p.step(Event::Success), Action::RunStageOne);
    assert_eq!(p.step(Event::Success), Action::RunStageTwo);
    assert_eq!(p.step(Event::Success), Action::RemoveTemp);
    assert_eq!(p.step(Event::Success), Action::RemoveInput);
    assert_eq!(p.step(Event::Success), Action::Halt);
    assert_eq!(p.phase, Phase::Succeeded);
    assert!(p.temp_clean);
    assert!(p.input_removed);
    assert!(!p.output_pending);
    assert_eq!(p.failure, None);
}

#[test]
fn failed_verification_halts_before_any_io() {
    let mut p = Pipeline::new();
    assert_eq!(p.step(Event::Failure(WabaError::SignatureMismatch)), Action::Halt);
    assert_eq!(p.phase, Phase::Failed);
    assert_eq!(p.failure, Some(WabaError::SignatureMismatch));
    assert!(!p.io_started);
    assert!(p.temp_clean);
    assert!(!p.input_removed);
}

#[test]
fn stage_one_failure_cleans_temp_and_keeps_input() {
    let mut p = Pipeline::new();
    p.step(Event::Success);
    assert_eq!(p.step(Event::Failure(WabaError::ArchiveError)), Action::RemoveTemp);
    assert_eq!(p.step(Event::Success), Action::Halt);
    assert_eq!(p.phase, Phase::Failed);
    assert_eq!(p.failure, Some(WabaError::ArchiveError));
    assert!(p.temp_clean);
    assert!(!p.input_removed);
}

#[test]
fn stage_two_failure_cleans_temp_then_partial_output() {
    let mut p = Pipeline::new();
    p.step(Event::Success);
    p.step(Event::Success);
    assert_eq!(p.step(Event::Failure(WabaError::DecryptionFailed)), Action::RemoveTemp);
    assert_eq!(p.step(Event::Success), Action::RemoveOutput);
    assert_eq!(p.step(Event::Success), Action::Halt);
    assert_eq!(p.phase, Phase::Failed);
    assert_eq!(p.failure, Some(WabaError::DecryptionFailed));
    assert!(p.temp_clean);
    assert!(!p.output_pending);
    assert!(!p.input_removed);
}

#[test]
fn failed_cleanup_deletion_shadows_the_original_error() {
    let mut p = Pipeline::new();
    p.step(Event::Success);
    p.step(Event::Failure(WabaError::ArchiveError));
    assert_eq!(p.step(Event::Failure(WabaError::IoError)), Action::Halt);
    assert_eq!(p.phase, Phase::Failed);
    assert_eq!(p.failure, Some(WabaError::CleanupFailed));
    assert!(!p.input_removed);
}

#[test]
fn temp_removal_failure_on_success_path_removes_output() {
    let mut p = Pipeline::new();
    p.step(Event::Success);
    p.step(Event::Success);
    p.step(Event::Success);
    assert_eq!(p.step(Event::Failure(WabaError::IoError)), Action::RemoveOutput);
    assert_eq!(p.step(Event::Success), Action::Halt);
    assert_eq!(p.phase, Phase::Failed);
    assert_eq!(p.failure, Some(WabaError::CleanupFailed));
    assert!(!p.input_removed);
}

#[test]
fn input_removal_failure_keeps_artifacts_and_reports_io_error() {
    let mut p = Pipeline::new();
    p.step(Event::Success);
    p.step(Event::Success);
    p.step(Event::Success);
    p.step(Event::Success);
    assert_eq!(p.step(Event::Failure(WabaError::IoError)), Action::Halt);
    assert_eq!(p.phase, Phase::Failed);
    assert_eq!(p.failure, Some(WabaError::IoError));
    assert!(p.temp_clean);
    assert!(!p.input_removed);
}

#[test]
fn terminal_states_stay_put() {
    let mut p = Pipeline::new();
    p.step(Event::Failure(WabaError::SignatureMismatch));
    assert_eq!(p.step(Event::Success), Action::Halt);
    assert_eq!(p.phase, Phase::Failed);
    assert_eq!(p.failure, Some(WabaError::SignatureMismatch));
}
