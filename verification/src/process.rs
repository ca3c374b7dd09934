//! The commands that a deployment runs as processes of their own.
//!
//! A process is started and later joined. Its outcome is known only once it
//! is joined: it succeeded where it exited with the status zero.

use crate::commands::{
    bootstrap_command, bootstrap_command_text, clone_command, clone_command_text, install_command,
    install_command_text,
};
use vstd::prelude::*;

verus! {

/// One of the three commands of a deployment.
#[derive(Clone, Copy, Debug, PartialEq, Eq, Structural)]
pub enum Process {
    /// Clones the repository into the project directory.
    CloneRepository,
    /// Installs the packages of the operating system and of the runtime.
    InstallPackages,
    /// Prepares the cloned project.
    Bootstrap,
}

impl Process {
    /// The text of the command of this process, for the repository at
    /// `repo_url`.
    pub open spec fn command_text(self, repo_url: Seq<char>) -> Seq<char> {
        match self {
            Process::CloneRepository => clone_command_text(repo_url),
            Process::InstallPackages => install_command_text(),
            Process::Bootstrap => bootstrap_command_text(),
        }
    }

    /// Whether the output of this process is captured. Where it is not, the
    /// process writes to the terminal of the deployment.
    pub open spec fn is_captured(self) -> bool {
        self != Process::Bootstrap
    }

    /// The command of this process, for the repository at `repo_url`.
    pub fn command(self, repo_url: &str) -> (command: String)
        ensures
            command@ == self.command_text(repo_url@),
    {
        match self {
            Process::CloneRepository => clone_command(repo_url),
            Process::InstallPackages => install_command(),
            Process::Bootstrap => bootstrap_command(),
        }
    }

    /// Whether the output of this process is captured.
    pub fn captures_output(self) -> (captured: bool)
        ensures
            captured == self.is_captured(),
    {
        match self {
            Process::Bootstrap => false,
            _ => true,
        }
    }
}

/// Whether a process that exited with `code` succeeded. A process that was
/// ended from outside has no code.
pub open spec fn exit_succeeded(code: Option<i32>) -> bool {
    code == Some(0i32)
}

/// Whether a process that exited with `code` succeeded.
pub fn has_succeeded(code: Option<i32>) -> (succeeded: bool)
    ensures
        succeeded == exit_succeeded(code),
{
    match code {
        Some(status) => status == 0,
        None => false,
    }
}

} // verus!
