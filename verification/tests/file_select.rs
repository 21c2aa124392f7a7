use sundries::file_select::{
    FileError, PollStep, SelectEvent, TaskState, UserFile, finish_load, on_event,
    poll_step,
};

#[test]
fn poll_walks_the_states() {
    assert_eq!(
        poll_step(TaskState::FirstPoll),
        (TaskState::WaitingForFileSelect, PollStep::Arm),
    );
    assert_eq!(
        poll_step(TaskState::WaitingForFileSelect),
        (TaskState::WaitingForFileSelect, PollStep::Pending),
    );
    assert_eq!(
        poll_step(TaskState::LoadFile),
        (TaskState::LoadFile, PollStep::Load),
    );
    assert_eq!(
        poll_step(TaskState::Errored(FileError::Canceled)),
        (
            TaskState::Errored(FileError::Canceled),
            PollStep::Fail(FileError::Canceled),
        ),
    );
}

#[test]
fn an_oversized_file_fails_at_once() {
    let s = on_event(
        TaskState::WaitingForFileSelect,
        SelectEvent::FileChosen { size: 2_000_001 },
    );
    assert_eq!(s, TaskState::Errored(FileError::FileTooBig));
}

#[test]
fn a_fitting_file_moves_on_to_loading() {
    let s = on_event(
        TaskState::WaitingForFileSelect,
        SelectEvent::FileChosen { size: 2_000_000 },
    );
    assert_eq!(s, TaskState::LoadFile);
}

#[test]
fn dismissing_the_picker_cancels_only_while_waiting() {
    let s = on_event(TaskState::WaitingForFileSelect, SelectEvent::FocusRegained);
    assert_eq!(s, TaskState::Errored(FileError::Canceled));
    let s = on_event(TaskState::LoadFile, SelectEvent::FocusRegained);
    assert_eq!(s, TaskState::LoadFile);
}

#[test]
fn a_change_event_without_a_file_changes_nothing() {
    let s = on_event(TaskState::WaitingForFileSelect, SelectEvent::NoFile);
    assert_eq!(s, TaskState::WaitingForFileSelect);
}

#[test]
fn finishing_the_load_maps_both_outcomes() {
    assert_eq!(
        finish_load(Ok(vec![1, 2, 3])),
        Ok(UserFile { bytes: vec![1, 2, 3] }),
    );
    assert_eq!(
        finish_load(Err("boom".to_string())),
        Err(FileError::JsFileLoadError("boom".to_string())),
    );
}
