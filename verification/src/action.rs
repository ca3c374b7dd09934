//! What a deployment asks of the world around it, and what it hears back.
//!
//! The deployment itself reads no terminal, opens no file and starts no
//! process. It names the next thing to be done as an `Action`, and whoever
//! drives it carries the action out and reports what came of it as an
//! `Event`.

use crate::error::{DeployError, DeployErrorView};
use crate::process::Process;
use vstd::prelude::*;

verus! {

/// The next thing to be done for a deployment.
#[derive(Clone, Debug, PartialEq, Eq)]
pub enum Action {
    /// Ask the user for a text. Where `required` holds, an empty answer is
    /// not taken.
    Prompt { message: String, required: bool },
    /// Fetch `url` once and report the status of the answer.
    CheckRepository { url: String },
    /// Start `command` in a shell, without waiting for it.
    Spawn { process: Process, command: String, capture_output: bool },
    /// Wait until `process`, which was started before, has exited.
    Join { process: Process },
    /// Read the whole file at `path`.
    ReadFile { path: String },
    /// Write `contents` to the file at `path`, in the place of what the file
    /// held.
    WriteFile { path: String, contents: String },
    /// Tell the user that the deployment is complete.
    Report { message: String },
    /// End with the status zero.
    Exit,
    /// Tell the user of `error` and end with a status other than zero.
    Fail { error: DeployError },
}

/// An `Action` with its texts as sequences of characters.
pub enum ActionView {
    Prompt { message: Seq<char>, required: bool },
    CheckRepository { url: Seq<char> },
    Spawn { process: Process, command: Seq<char>, capture_output: bool },
    Join { process: Process },
    ReadFile { path: Seq<char> },
    WriteFile { path: Seq<char>, contents: Seq<char> },
    Report { message: Seq<char> },
    Exit,
    Fail { error: DeployErrorView },
}

impl View for Action {
    type V = ActionView;

    open spec fn view(&self) -> ActionView {
        match self {
            Action::Prompt { message, required } => ActionView::Prompt {
                message: message@,
                required: *required,
            },
            Action::CheckRepository { url } => ActionView::CheckRepository { url: url@ },
            Action::Spawn { process, command, capture_output } => ActionView::Spawn {
                process: *process,
                command: command@,
                capture_output: *capture_output,
            },
            Action::Join { process } => ActionView::Join { process: *process },
            Action::ReadFile { path } => ActionView::ReadFile { path: path@ },
            Action::WriteFile { path, contents } => ActionView::WriteFile {
                path: path@,
                contents: contents@,
            },
            Action::Report { message } => ActionView::Report { message: message@ },
            Action::Exit => ActionView::Exit,
            Action::Fail { error } => ActionView::Fail { error: error@ },
        }
    }
}

/// What came of an action.
#[derive(Clone, Debug, PartialEq, Eq)]
pub enum Event {
    /// The user answered a prompt with `value`.
    Answered { value: String },
    /// The address of the repository answered with `status`.
    Checked { status: u16 },
    /// The action was carried out and hands nothing back: a process was
    /// started, a file was written, the user was told.
    Completed,
    /// The process that was joined has exited, with `code` unless it was
    /// ended from outside.
    Exited { code: Option<i32> },
    /// The file that was read holds `contents`.
    FileRead { contents: String },
    /// The action could not be carried out.
    Failed { reason: String },
    /// The line that tells the user of the action could not be shown, and
    /// the action was left undone.
    Unannounced { reason: String },
}

/// An `Event` with its texts as sequences of characters.
pub enum EventView {
    Answered { value: Seq<char> },
    Checked { status: u16 },
    Completed,
    Exited { code: Option<i32> },
    FileRead { contents: Seq<char> },
    Failed { reason: Seq<char> },
    Unannounced { reason: Seq<char> },
}

impl View for Event {
    type V = EventView;

    open spec fn view(&self) -> EventView {
        match self {
            Event::Answered { value } => EventView::Answered { value: value@ },
            Event::Checked { status } => EventView::Checked { status: *status },
            Event::Completed => EventView::Completed,
            Event::Exited { code } => EventView::Exited { code: *code },
            Event::FileRead { contents } => EventView::FileRead { contents: contents@ },
            Event::Failed { reason } => EventView::Failed { reason: reason@ },
            Event::Unannounced { reason } => EventView::Unannounced { reason: reason@ },
        }
    }
}

} // verus!
