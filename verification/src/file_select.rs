//! The decision core of an interactive file-selection flow: a hidden file
//! input is clicked, and the surrounding task then reacts to DOM events —
//! a file chosen, focus regained without a choice, the file's bytes loaded
//! or failed to load.  The event loop performs the outside work; the
//! functions here decide every state change and outcome.

use vstd::prelude::*;

verus! {

/// The largest file accepted, in bytes.
pub const MAX_FILE_SIZE: u64 = 2_000_000;

/// Why a file selection failed.
#[derive(Debug, PartialEq, Eq)]
pub enum FileError {
    /// The chosen file is over `MAX_FILE_SIZE` bytes.
    FileTooBig,
    /// Focus came back without a file having been chosen.
    Canceled,
    /// The platform failed to read the chosen file.
    JsFileLoadError(String),
}

impl FileError {
    /// An owned copy of the error.
    pub fn duplicate(&self) -> (r: FileError)
        ensures
            r == *self,
    {
        match self {
            FileError::FileTooBig => FileError::FileTooBig,
            FileError::Canceled => FileError::Canceled,
            FileError::JsFileLoadError(s) => FileError::JsFileLoadError(s.clone()),
        }
    }
}

/// A successfully selected file.
#[derive(Debug, PartialEq, Eq)]
pub struct UserFile {
    /// The file's contents.
    pub bytes: Vec<u8>,
}

/// Where the selection task stands.
#[derive(Debug, PartialEq, Eq)]
pub enum TaskState {
    /// Nothing has happened yet.
    FirstPoll,
    /// The picker is open; no file chosen so far.
    WaitingForFileSelect,
    /// The selection failed.
    Errored(FileError),
    /// A file was chosen and its bytes are being read.
    LoadFile,
}

/// A DOM event the task reacts to.
#[derive(Debug, PartialEq, Eq)]
pub enum SelectEvent {
    /// The input's change event fired with a file of `size` bytes.
    FileChosen { size: u64 },
    /// The input's change event fired with no file.
    NoFile,
    /// The document regained focus (the picker was dismissed).
    FocusRegained,
}

/// What one poll of the task asks its surroundings to do.
#[derive(Debug, PartialEq, Eq)]
pub enum PollStep {
    /// Arm the change and focus handlers and click the input, then wait.
    Arm,
    /// Keep waiting.
    Pending,
    /// Read the chosen file's bytes.
    Load,
    /// Give up with this error.
    Fail(FileError),
}

/// How the state reacts to a DOM event: an oversized file fails at once, a
/// fitting file moves on to loading, a dismissed picker cancels the wait —
/// but only while the task is still waiting — and a change event without a
/// file changes nothing.
pub fn on_event(state: TaskState, event: SelectEvent) -> (r: TaskState)
    ensures
        r == match event {
            SelectEvent::FileChosen { size } => {
                if state == TaskState::WaitingForFileSelect {
                    if size > MAX_FILE_SIZE {
                        TaskState::Errored(FileError::FileTooBig)
                    } else {
                        TaskState::LoadFile
                    }
                } else {
                    state
                }
            },
            SelectEvent::NoFile => state,
            SelectEvent::FocusRegained => {
                if state == TaskState::WaitingForFileSelect {
                    TaskState::Errored(FileError::Canceled)
                } else {
                    state
                }
            },
        },
{
    match event {
        SelectEvent::FileChosen { size } => {
            if matches!(state, TaskState::WaitingForFileSelect) {
                if size > MAX_FILE_SIZE {
                    TaskState::Errored(FileError::FileTooBig)
                } else {
                    TaskState::LoadFile
                }
            } else {
                state
            }
        },
        SelectEvent::NoFile => state,
        SelectEvent::FocusRegained => {
            if matches!(state, TaskState::WaitingForFileSelect) {
                TaskState::Errored(FileError::Canceled)
            } else {
                state
            }
        },
    }
}

/// What one poll does in each state: the first poll arms the handlers and
/// opens the picker, a waiting task stays pending, an error is surfaced,
/// and a chosen file is read.
pub fn poll_step(state: TaskState) -> (r: (TaskState, PollStep))
    ensures
        r == match state {
            TaskState::FirstPoll => (TaskState::WaitingForFileSelect, PollStep::Arm),
            TaskState::WaitingForFileSelect => (
                TaskState::WaitingForFileSelect,
                PollStep::Pending,
            ),
            TaskState::Errored(e) => (TaskState::Errored(e), PollStep::Fail(e)),
            TaskState::LoadFile => (TaskState::LoadFile, PollStep::Load),
        },
{
    match state {
        TaskState::FirstPoll => (TaskState::WaitingForFileSelect, PollStep::Arm),
        TaskState::WaitingForFileSelect => (
            TaskState::WaitingForFileSelect,
            PollStep::Pending,
        ),
        TaskState::Errored(e) => {
            let copy = e.duplicate();
            (TaskState::Errored(e), PollStep::Fail(copy))
        },
        TaskState::LoadFile => (TaskState::LoadFile, PollStep::Load),
    }
}

/// The outcome once the platform finished reading the file's bytes, from
/// the read's own result.
pub fn finish_load(outcome: Result<Vec<u8>, String>) -> (r: Result<UserFile, FileError>)
    ensures
        r == match outcome {
            Ok(bytes) => Ok::<UserFile, FileError>(UserFile { bytes }),
            Err(message) => Err::<UserFile, FileError>(
                FileError::JsFileLoadError(message),
            ),
        },
{
    match outcome {
        Ok(bytes) => Ok(UserFile { bytes }),
        Err(message) => Err(FileError::JsFileLoadError(message)),
    }
}

} // verus!
