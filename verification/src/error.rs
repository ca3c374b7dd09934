//! The ways in which a deployment fails. Each of them ends the deployment.

use crate::process::Process;
use vstd::prelude::*;

verus! {

/// Why a deployment was aborted.
#[derive(Clone, Debug, PartialEq, Eq)]
pub enum DeployError {
    /// The check that the repository exists could not be completed.
    Network { url: String },
    /// The repository was reached and answered with a status of failure.
    NotFound { url: String },
    /// The file at `path` could not be read or written.
    Io { path: String },
    /// The user gave no answer: a prompt was cancelled or could not be
    /// read, or the terminal could not be written to.
    Input,
    /// The command of `process` could not be started.
    Spawn { process: Process, reason: String },
    /// The command of `process` ran and did not exit with the status zero.
    Process { process: Process, command: String, exit_status: Option<i32> },
}

/// A `DeployError` with its texts as sequences of characters.
pub enum DeployErrorView {
    Network { url: Seq<char> },
    NotFound { url: Seq<char> },
    Io { path: Seq<char> },
    Input,
    Spawn { process: Process, reason: Seq<char> },
    Process { process: Process, command: Seq<char>, exit_status: Option<i32> },
}

impl View for DeployError {
    type V = DeployErrorView;

    open spec fn view(&self) -> DeployErrorView {
        match self {
            DeployError::Network { url } => DeployErrorView::Network { url: url@ },
            DeployError::NotFound { url } => DeployErrorView::NotFound { url: url@ },
            DeployError::Io { path } => DeployErrorView::Io { path: path@ },
            DeployError::Input => DeployErrorView::Input,
            DeployError::Spawn { process, reason } => DeployErrorView::Spawn {
                process: *process,
                reason: reason@,
            },
            DeployError::Process { process, command, exit_status } => DeployErrorView::Process {
                process: *process,
                command: command@,
                exit_status: *exit_status,
            },
        }
    }
}

/// What the user is told where the command of `process` could not be
/// started, before the reason.
pub open spec fn spawn_message(process: Process) -> Seq<char> {
    match process {
        Process::CloneRepository => "Error while cloning the repository!"@,
        Process::InstallPackages => "Error while installing PHP extensions!"@,
        Process::Bootstrap => "Error while configuring Laravel!"@,
    }
}

impl DeployErrorView {
    /// The message that tells the user of this failure.
    pub open spec fn message(self) -> Seq<char> {
        match self {
            DeployErrorView::Network { url } => "Error while checking if the repository \""@ + url
                + "\" exists!"@,
            DeployErrorView::NotFound { url } => "The repository \""@ + url + "\" does not exist"@,
            DeployErrorView::Io { path } => "Error while accessing the file "@ + path,
            DeployErrorView::Input => "Error while reading from or writing to the terminal!"@,
            DeployErrorView::Spawn { process, reason } => spawn_message(process) + " ("@ + reason
                + ")"@,
            DeployErrorView::Process { process, command, exit_status } => "The command failed: "@
                + command,
        }
    }
}

impl DeployError {
    /// The message that tells the user of this failure.
    pub fn message(&self) -> (message: String)
        ensures
            message@ == self@.message(),
    {
        match self {
            DeployError::Network { url } => String::from_str(
                "Error while checking if the repository \"",
            ).concat(url.as_str()).concat("\" exists!"),
            DeployError::NotFound { url } => String::from_str("The repository \"").concat(
                url.as_str(),
            ).concat("\" does not exist"),
            DeployError::Io { path } => String::from_str("Error while accessing the file ").concat(
                path.as_str(),
            ),
            DeployError::Input => String::from_str("Error while reading from or writing to the terminal!"),
            DeployError::Spawn { process, reason } => {
                let what = match process {
                    Process::CloneRepository => "Error while cloning the repository!",
                    Process::InstallPackages => "Error while installing PHP extensions!",
                    Process::Bootstrap => "Error while configuring Laravel!",
                };
                String::from_str(what).concat(" (").concat(reason.as_str()).concat(")")
            },
            DeployError::Process { process, command, exit_status } => String::from_str(
                "The command failed: ",
            ).concat(command.as_str()),
        }
    }
}

} // verus!
