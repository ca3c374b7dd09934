//! The deployment as a state machine.
//!
//! A deployment is a fixed line of steps: the address of the repository is
//! asked for and checked, the repository is cloned, the packages are
//! installed while the user is asked for the environment and the domain,
//! the proxy configuration and the environment file are written, and the
//! project is prepared. Each state names the one action it waits for, and
//! `step` gives the state that follows once the outcome of that action is
//! known. The first failure aborts the deployment, and an aborted
//! deployment stays aborted. An event that does not answer the action of a
//! state leaves the state as it is. Some states have a line that tells the
//! user what comes next; where that line cannot be shown, the action is left
//! undone and the deployment is aborted.

use crate::action::{Action, ActionView, Event, EventView};
use crate::collector::{collect_entry, collected_entry, prompt_for_key, prompt_text};
use crate::commands::{
    bootstrap_command, bootstrap_command_text, clone_command, clone_command_text, install_command,
    install_command_text, parent_of, parent_path,
};
use crate::env_example::{env_keys, extract_env_keys, lemma_env_keys};
use crate::env_file::{env_file_contents, env_file_text};
use crate::error::{DeployError, DeployErrorView};
use crate::process::{exit_succeeded, has_succeeded, Process};
use crate::repository::{is_success, status_is_success};
use crate::settings::{
    env_example_path, env_example_path_text, env_file_path, env_file_path_text, CADDY_FILE_PATH,
    LARAVEL_PROJECT_PATH,
};
use crate::template::{render_site_caddyfile, site_caddyfile_text};
use vstd::prelude::*;

verus! {

/// How far a deployment has come.
#[derive(Clone, Copy, Debug, PartialEq, Eq, Structural)]
pub enum Stage {
    /// Nothing is known of the repository yet.
    Init,
    /// The repository exists.
    UrlChecked,
    /// The repository is cloned.
    Cloned,
    /// The packages are being installed while the environment and the
    /// domain are collected.
    Installing,
    /// The packages are installed and the environment and the domain are
    /// known.
    Configured,
    /// The proxy configuration and the environment file are written.
    RenderedAndWritten,
    /// The project is prepared.
    Bootstrapped,
    /// The deployment is complete.
    Done,
    /// The deployment has failed.
    Aborted,
}

/// The state of a deployment: what it waits for, and what it has learned
/// so far.
#[derive(Clone, Debug, PartialEq, Eq)]
pub enum Pipeline {
    /// Waits for the address of the repository.
    AwaitingRepoUrl,
    /// Waits for the check that the repository exists.
    CheckingRepo { repo_url: String },
    /// Waits for the clone to be started.
    SpawningClone { repo_url: String },
    /// Waits for the clone to exit.
    Cloning { repo_url: String },
    /// Waits for the installation of the packages to be started.
    SpawningInstall,
    /// Waits for the example environment file, while the packages are
    /// installed.
    ReadingEnvExample,
    /// Waits for the value of `key`. The keys of `remaining` are asked
    /// for after it, and `entries` are kept of the answers so far.
    CollectingValues { key: String, remaining: Vec<String>, entries: Vec<(String, String)> },
    /// Waits for the domain of the site.
    AskingDomain { entries: Vec<(String, String)> },
    /// Waits for the installation of the packages to exit.
    JoiningInstall { domain: String, entries: Vec<(String, String)> },
    /// Waits for the proxy configuration to be written.
    WritingCaddyfile { domain: String, entries: Vec<(String, String)> },
    /// Waits for the environment file to be written.
    WritingEnvFile { entries: Vec<(String, String)> },
    /// Waits for the preparation of the project to be started.
    SpawningBootstrap,
    /// Waits for the preparation of the project to exit.
    Bootstrapping,
    /// Waits for the user to be told that the deployment is complete.
    Bootstrapped,
    /// The deployment is complete.
    Done,
    /// The deployment has failed with `error`.
    Aborted { error: DeployError },
}

/// A `Pipeline` with its texts as sequences of characters.
pub enum PipelineView {
    AwaitingRepoUrl,
    CheckingRepo { repo_url: Seq<char> },
    SpawningClone { repo_url: Seq<char> },
    Cloning { repo_url: Seq<char> },
    SpawningInstall,
    ReadingEnvExample,
    CollectingValues {
        key: Seq<char>,
        remaining: Seq<Seq<char>>,
        entries: Seq<(Seq<char>, Seq<char>)>,
    },
    AskingDomain { entries: Seq<(Seq<char>, Seq<char>)> },
    JoiningInstall { domain: Seq<char>, entries: Seq<(Seq<char>, Seq<char>)> },
    WritingCaddyfile { domain: Seq<char>, entries: Seq<(Seq<char>, Seq<char>)> },
    WritingEnvFile { entries: Seq<(Seq<char>, Seq<char>)> },
    SpawningBootstrap,
    Bootstrapping,
    Bootstrapped,
    Done,
    Aborted { error: DeployErrorView },
}

impl View for Pipeline {
    type V = PipelineView;

    open spec fn view(&self) -> PipelineView {
        match self {
            Pipeline::AwaitingRepoUrl => PipelineView::AwaitingRepoUrl,
            Pipeline::CheckingRepo { repo_url } => PipelineView::CheckingRepo {
                repo_url: repo_url@,
            },
            Pipeline::SpawningClone { repo_url } => PipelineView::SpawningClone {
                repo_url: repo_url@,
            },
            Pipeline::Cloning { repo_url } => PipelineView::Cloning { repo_url: repo_url@ },
            Pipeline::SpawningInstall => PipelineView::SpawningInstall,
            Pipeline::ReadingEnvExample => PipelineView::ReadingEnvExample,
            Pipeline::CollectingValues { key, remaining, entries } => {
                PipelineView::CollectingValues {
                    key: key@,
                    remaining: remaining.deep_view(),
                    entries: entries.deep_view(),
                }
            },
            Pipeline::AskingDomain { entries } => PipelineView::AskingDomain {
                entries: entries.deep_view(),
            },
            Pipeline::JoiningInstall { domain, entries } => PipelineView::JoiningInstall {
                domain: domain@,
                entries: entries.deep_view(),
            },
            Pipeline::WritingCaddyfile { domain, entries } => PipelineView::WritingCaddyfile {
                domain: domain@,
                entries: entries.deep_view(),
            },
            Pipeline::WritingEnvFile { entries } => PipelineView::WritingEnvFile {
                entries: entries.deep_view(),
            },
            Pipeline::SpawningBootstrap => PipelineView::SpawningBootstrap,
            Pipeline::Bootstrapping => PipelineView::Bootstrapping,
            Pipeline::Bootstrapped => PipelineView::Bootstrapped,
            Pipeline::Done => PipelineView::Done,
            Pipeline::Aborted { error } => PipelineView::Aborted { error: error@ },
        }
    }
}

/// The state that follows `state` once the user has answered: `next` with
/// the answer, or an aborted deployment where there is no answer.
pub open spec fn after_prompt(
    state: PipelineView,
    event: EventView,
    next: spec_fn(Seq<char>) -> PipelineView,
) -> PipelineView {
    match event {
        EventView::Answered { value } => next(value),
        EventView::Failed { reason } => PipelineView::Aborted { error: DeployErrorView::Input },
        _ => state,
    }
}

/// The state that follows `state` once `process` was to be started: `next`
/// where it runs, or an aborted deployment where it could not be started.
pub open spec fn after_spawn(
    state: PipelineView,
    event: EventView,
    process: Process,
    next: PipelineView,
) -> PipelineView {
    match event {
        EventView::Completed => next,
        EventView::Failed { reason } => PipelineView::Aborted {
            error: DeployErrorView::Spawn { process, reason },
        },
        _ => state,
    }
}

/// The state that follows `state` once `process`, which runs `command`, was
/// joined: `next` where it exited with the status zero, or an aborted
/// deployment.
pub open spec fn after_join(
    state: PipelineView,
    event: EventView,
    process: Process,
    command: Seq<char>,
    next: PipelineView,
) -> PipelineView {
    match event {
        EventView::Exited { code } => if exit_succeeded(code) {
            next
        } else {
            PipelineView::Aborted {
                error: DeployErrorView::Process { process, command, exit_status: code },
            }
        },
        EventView::Failed { reason } => PipelineView::Aborted {
            error: DeployErrorView::Process { process, command, exit_status: None },
        },
        _ => state,
    }
}

/// The state that follows `state` once the file at `path` was to be
/// written: `next` where it was, or an aborted deployment.
pub open spec fn after_write(
    state: PipelineView,
    event: EventView,
    path: Seq<char>,
    next: PipelineView,
) -> PipelineView {
    match event {
        EventView::Completed => next,
        EventView::Failed { reason } => PipelineView::Aborted {
            error: DeployErrorView::Io { path },
        },
        _ => state,
    }
}

/// The state in which the user is asked for the first of `keys`, or for the
/// domain where there are none, with `entries` kept so far.
pub open spec fn asking_next(
    keys: Seq<Seq<char>>,
    entries: Seq<(Seq<char>, Seq<char>)>,
) -> PipelineView {
    if keys.len() == 0 {
        PipelineView::AskingDomain { entries }
    } else {
        PipelineView::CollectingValues { key: keys[0], remaining: keys.skip(1), entries }
    }
}

/// `entries` with what is kept of the answer `value` for `key`.
pub open spec fn with_answer(
    entries: Seq<(Seq<char>, Seq<char>)>,
    key: Seq<char>,
    value: Seq<char>,
) -> Seq<(Seq<char>, Seq<char>)> {
    match collected_entry(key, value) {
        Some(entry) => entries.push(entry),
        None => entries,
    }
}

impl PipelineView {
    /// The state in which every deployment begins.
    pub open spec fn start() -> PipelineView {
        PipelineView::AwaitingRepoUrl
    }

    /// Whether the deployment is over.
    pub open spec fn has_ended(self) -> bool {
        self is Done || self is Aborted
    }

    /// How far the deployment has come.
    pub open spec fn stage(self) -> Stage {
        match self {
            PipelineView::AwaitingRepoUrl => Stage::Init,
            PipelineView::CheckingRepo { .. } => Stage::Init,
            PipelineView::SpawningClone { .. } => Stage::UrlChecked,
            PipelineView::Cloning { .. } => Stage::UrlChecked,
            PipelineView::SpawningInstall => Stage::Cloned,
            PipelineView::ReadingEnvExample => Stage::Installing,
            PipelineView::CollectingValues { .. } => Stage::Installing,
            PipelineView::AskingDomain { .. } => Stage::Installing,
            PipelineView::JoiningInstall { .. } => Stage::Installing,
            PipelineView::WritingCaddyfile { .. } => Stage::Configured,
            PipelineView::WritingEnvFile { .. } => Stage::Configured,
            PipelineView::SpawningBootstrap => Stage::RenderedAndWritten,
            PipelineView::Bootstrapping => Stage::RenderedAndWritten,
            PipelineView::Bootstrapped => Stage::Bootstrapped,
            PipelineView::Done => Stage::Done,
            PipelineView::Aborted { .. } => Stage::Aborted,
        }
    }

    /// The place of the state in the line of steps. An aborted deployment
    /// stands behind every other.
    pub open spec fn rank(self) -> nat {
        match self {
            PipelineView::AwaitingRepoUrl => 0,
            PipelineView::CheckingRepo { .. } => 1,
            PipelineView::SpawningClone { .. } => 2,
            PipelineView::Cloning { .. } => 3,
            PipelineView::SpawningInstall => 4,
            PipelineView::ReadingEnvExample => 5,
            PipelineView::CollectingValues { .. } => 6,
            PipelineView::AskingDomain { .. } => 7,
            PipelineView::JoiningInstall { .. } => 8,
            PipelineView::WritingCaddyfile { .. } => 9,
            PipelineView::WritingEnvFile { .. } => 10,
            PipelineView::SpawningBootstrap => 11,
            PipelineView::Bootstrapping => 12,
            PipelineView::Bootstrapped => 13,
            PipelineView::Done => 14,
            PipelineView::Aborted { .. } => 15,
        }
    }

    /// The action that the state waits for.
    pub open spec fn action(self) -> ActionView {
        match self {
            PipelineView::AwaitingRepoUrl => ActionView::Prompt {
                message: "Enter the URL of the repository:"@,
                required: true,
            },
            PipelineView::CheckingRepo { repo_url } => ActionView::CheckRepository {
                url: repo_url,
            },
            PipelineView::SpawningClone { repo_url } => ActionView::Spawn {
                process: Process::CloneRepository,
                command: clone_command_text(repo_url),
                capture_output: true,
            },
            PipelineView::Cloning { repo_url } => ActionView::Join {
                process: Process::CloneRepository,
            },
            PipelineView::SpawningInstall => ActionView::Spawn {
                process: Process::InstallPackages,
                command: install_command_text(),
                capture_output: true,
            },
            PipelineView::ReadingEnvExample => ActionView::ReadFile {
                path: env_example_path_text(),
            },
            PipelineView::CollectingValues { key, remaining, entries } => ActionView::Prompt {
                message: prompt_text(key),
                required: false,
            },
            PipelineView::AskingDomain { entries } => ActionView::Prompt {
                message: "Enter the domain: (ex. mysite.com, without 'www' prefix"@,
                required: true,
            },
            PipelineView::JoiningInstall { domain, entries } => ActionView::Join {
                process: Process::InstallPackages,
            },
            PipelineView::WritingCaddyfile { domain, entries } => ActionView::WriteFile {
                path: CADDY_FILE_PATH@,
                contents: site_caddyfile_text(domain, entries),
            },
            PipelineView::WritingEnvFile { entries } => ActionView::WriteFile {
                path: env_file_path_text(),
                contents: env_file_text(entries),
            },
            PipelineView::SpawningBootstrap => ActionView::Spawn {
                process: Process::Bootstrap,
                command: bootstrap_command_text(),
                capture_output: false,
            },
            PipelineView::Bootstrapping => ActionView::Join { process: Process::Bootstrap },
            PipelineView::Bootstrapped => ActionView::Report { message: "All done!"@ },
            PipelineView::Done => ActionView::Exit,
            PipelineView::Aborted { error } => ActionView::Fail { error },
        }
    }

    /// The line that tells the user what the deployment does next, where
    /// there is one for the state.
    pub open spec fn announcement(self) -> Option<Seq<char>> {
        match self {
            PipelineView::SpawningClone { repo_url } => Some(
                "Clone path: "@ + parent_of(LARAVEL_PROJECT_PATH@),
            ),
            PipelineView::Cloning { repo_url } => Some("Cloning the repository..."@),
            PipelineView::JoiningInstall { domain, entries } => Some(
                "Waiting for all dependencies to be installed..."@,
            ),
            PipelineView::WritingCaddyfile { domain, entries } => Some("Creating Caddyfile..."@),
            PipelineView::WritingEnvFile { entries } => Some("Creating .env file..."@),
            PipelineView::Bootstrapping => Some("Configuring Laravel project..."@),
            _ => None,
        }
    }

    /// The state that follows where the line that tells the user of the
    /// action could not be shown: an aborted deployment where the state has
    /// such a line, else the state as it is.
    pub open spec fn unannounced(self) -> PipelineView {
        if self.announcement() is Some {
            PipelineView::Aborted { error: DeployErrorView::Input }
        } else {
            self
        }
    }

    /// The state that follows once `event` is known.
    pub open spec fn step(self, event: EventView) -> PipelineView {
        if event is Unannounced {
            self.unannounced()
        } else {
            self.answered(event)
        }
    }

    /// The state that follows once `event` tells what came of the action of
    /// the state.
    pub open spec fn answered(self, event: EventView) -> PipelineView {
        match self {
            PipelineView::AwaitingRepoUrl => after_prompt(
                self,
                event,
                |value: Seq<char>| PipelineView::CheckingRepo { repo_url: value },
            ),
            PipelineView::CheckingRepo { repo_url } => match event {
                EventView::Checked { status } => if is_success(status) {
                    PipelineView::SpawningClone { repo_url }
                } else {
                    PipelineView::Aborted { error: DeployErrorView::NotFound { url: repo_url } }
                },
                EventView::Failed { reason } => PipelineView::Aborted {
                    error: DeployErrorView::Network { url: repo_url },
                },
                _ => self,
            },
            PipelineView::SpawningClone { repo_url } => after_spawn(
                self,
                event,
                Process::CloneRepository,
                PipelineView::Cloning { repo_url },
            ),
            PipelineView::Cloning { repo_url } => after_join(
                self,
                event,
                Process::CloneRepository,
                clone_command_text(repo_url),
                PipelineView::SpawningInstall,
            ),
            PipelineView::SpawningInstall => after_spawn(
                self,
                event,
                Process::InstallPackages,
                PipelineView::ReadingEnvExample,
            ),
            PipelineView::ReadingEnvExample => match event {
                EventView::FileRead { contents } => asking_next(env_keys(contents), Seq::empty()),
                EventView::Failed { reason } => PipelineView::Aborted {
                    error: DeployErrorView::Io { path: env_example_path_text() },
                },
                _ => self,
            },
            PipelineView::CollectingValues { key, remaining, entries } => after_prompt(
                self,
                event,
                |value: Seq<char>| asking_next(remaining, with_answer(entries, key, value)),
            ),
            PipelineView::AskingDomain { entries } => after_prompt(
                self,
                event,
                |value: Seq<char>| PipelineView::JoiningInstall { domain: value, entries },
            ),
            PipelineView::JoiningInstall { domain, entries } => after_join(
                self,
                event,
                Process::InstallPackages,
                install_command_text(),
                PipelineView::WritingCaddyfile { domain, entries },
            ),
            PipelineView::WritingCaddyfile { domain, entries } => after_write(
                self,
                event,
                CADDY_FILE_PATH@,
                PipelineView::WritingEnvFile { entries },
            ),
            PipelineView::WritingEnvFile { entries } => after_write(
                self,
                event,
                env_file_path_text(),
                PipelineView::SpawningBootstrap,
            ),
            PipelineView::SpawningBootstrap => after_spawn(
                self,
                event,
                Process::Bootstrap,
                PipelineView::Bootstrapping,
            ),
            PipelineView::Bootstrapping => after_join(
                self,
                event,
                Process::Bootstrap,
                bootstrap_command_text(),
                PipelineView::Bootstrapped,
            ),
            PipelineView::Bootstrapped => match event {
                EventView::Completed => PipelineView::Done,
                EventView::Failed { reason } => PipelineView::Aborted {
                    error: DeployErrorView::Input,
                },
                _ => self,
            },
            PipelineView::Done => self,
            PipelineView::Aborted { error } => self,
        }
    }
}

/// The state that `state` has become once `events` are known, one after the
/// other.
pub open spec fn run(state: PipelineView, events: Seq<EventView>) -> PipelineView
    decreases events.len(),
{
    if events.len() == 0 {
        state
    } else {
        run(state, events.drop_last()).step(events.last())
    }
}

/// The entries that `state` keeps of the answers of the user.
pub open spec fn entries_of(state: PipelineView) -> Seq<(Seq<char>, Seq<char>)> {
    match state {
        PipelineView::CollectingValues { key, remaining, entries } => entries,
        PipelineView::AskingDomain { entries } => entries,
        PipelineView::JoiningInstall { domain, entries } => entries,
        PipelineView::WritingCaddyfile { domain, entries } => entries,
        PipelineView::WritingEnvFile { entries } => entries,
        _ => Seq::empty(),
    }
}

/// Whether none of `entries` holds an empty value.
pub open spec fn hold_values(entries: Seq<(Seq<char>, Seq<char>)>) -> bool {
    forall|i: int| 0 <= i < entries.len() ==> (#[trigger] entries[i]).1.len() > 0
}

/// No step takes a deployment back in the line of steps.
pub proof fn lemma_step_never_goes_back(state: PipelineView, event: EventView)
    ensures
        state.rank() <= state.step(event).rank(),
{
}

/// Whatever the action of a state that has not ended, its failure aborts
/// the deployment.
pub proof fn lemma_failure_aborts(state: PipelineView, reason: Seq<char>)
    requires
        !state.has_ended(),
    ensures
        state.step(EventView::Failed { reason }) is Aborted,
{
}

/// Where the line that tells the user of an action cannot be shown, the
/// deployment is aborted and the action is left undone.
pub proof fn lemma_unannounced_aborts(state: PipelineView, reason: Seq<char>)
    requires
        state.announcement() is Some,
    ensures
        state.step(EventView::Unannounced { reason }) == (PipelineView::Aborted {
            error: DeployErrorView::Input,
        }),
{
}

/// A deployment that has ended stays as it is, whatever is reported to it.
pub proof fn lemma_end_is_final(state: PipelineView, events: Seq<EventView>)
    requires
        state.has_ended(),
    ensures
        run(state, events) == state,
    decreases events.len(),
{
    if events.len() > 0 {
        lemma_end_is_final(state, events.drop_last());
    }
}

/// The states of a deployment never go back in the line of steps.
pub proof fn lemma_run_never_goes_back(
    state: PipelineView,
    events: Seq<EventView>,
    i: int,
    j: int,
)
    requires
        0 <= i <= j <= events.len(),
    ensures
        run(state, events.take(i)).rank() <= run(state, events.take(j)).rank(),
    decreases j - i,
{
    if i < j {
        lemma_run_never_goes_back(state, events, i, j - 1);
        assert(events.take(j).drop_last() =~= events.take(j - 1));
        lemma_step_never_goes_back(run(state, events.take(j - 1)), events[j - 1]);
    }
}

/// Once a deployment has ended, its state is the same after every further
/// event.
pub proof fn lemma_run_after_end(state: PipelineView, events: Seq<EventView>, k: int, j: int)
    requires
        0 <= k <= j <= events.len(),
        run(state, events.take(k)).has_ended(),
    ensures
        run(state, events.take(j)) == run(state, events.take(k)),
    decreases j - k,
{
    if k < j {
        lemma_run_after_end(state, events, k, j - 1);
        assert(events.take(j).drop_last() =~= events.take(j - 1));
    }
}

/// Where the check answers with a status that is no success, the deployment
/// is aborted for the repository at that address, and it starts and joins no
/// process, neither before the check nor after it.
pub proof fn lemma_missing_repository_starts_no_process(
    events: Seq<EventView>,
    k: int,
    j: int,
)
    requires
        0 <= k < events.len(),
        run(PipelineView::start(), events.take(k)) is CheckingRepo,
        events[k] matches EventView::Checked { status } && !is_success(status),
        0 <= j <= events.len(),
    ensures
        !(run(PipelineView::start(), events.take(j)).action() is Spawn),
        !(run(PipelineView::start(), events.take(j)).action() is Join),
        j > k ==> run(PipelineView::start(), events.take(j)) == (PipelineView::Aborted {
            error: DeployErrorView::NotFound {
                url: run(PipelineView::start(), events.take(k))->CheckingRepo_repo_url,
            },
        }),
{
    assert(events.take(k + 1).drop_last() =~= events.take(k));
    lemma_abort_before_clone_starts_no_process(events, k, j);
}

/// Where the installation of the packages does not exit with the status
/// zero, the deployment is aborted, and it writes no file, neither before
/// the installation is joined nor after it.
pub proof fn lemma_failed_install_writes_no_file(events: Seq<EventView>, k: int, j: int)
    requires
        0 <= k < events.len(),
        run(PipelineView::start(), events.take(k)) is JoiningInstall,
        events[k] matches EventView::Exited { code } && !exit_succeeded(code),
        0 <= j <= events.len(),
    ensures
        !(run(PipelineView::start(), events.take(j)).action() is WriteFile),
        j > k ==> run(PipelineView::start(), events.take(j)) == (PipelineView::Aborted {
            error: DeployErrorView::Process {
                process: Process::InstallPackages,
                command: install_command_text(),
                exit_status: events[k]->Exited_code,
            },
        }),
{
    assert(events.take(k + 1).drop_last() =~= events.take(k));
    lemma_abort_before_files_writes_no_file(events, k, j);
}

/// A step keeps the entries free of empty values.
pub proof fn lemma_step_holds_values(state: PipelineView, event: EventView)
    requires
        hold_values(entries_of(state)),
    ensures
        hold_values(entries_of(state.step(event))),
{
}

/// Whatever is reported to a deployment, the entries that it keeps, and
/// with them the environment file that it writes, hold no empty value.
pub proof fn lemma_entries_hold_values(events: Seq<EventView>)
    ensures
        hold_values(entries_of(run(PipelineView::start(), events))),
    decreases events.len(),
{
    if events.len() > 0 {
        lemma_entries_hold_values(events.drop_last());
        lemma_step_holds_values(run(PipelineView::start(), events.drop_last()), events.last());
    }
}

/// The key of each of `entries`, in their order.
pub open spec fn entry_keys(entries: Seq<(Seq<char>, Seq<char>)>) -> Seq<Seq<char>> {
    Seq::new(entries.len(), |i: int| entries[i].0)
}

/// The keys that `state` knows of: those of the entries that it keeps, then
/// the key that it asks for and those that it asks for after it.
pub open spec fn keys_of(state: PipelineView) -> Seq<Seq<char>> {
    match state {
        PipelineView::CollectingValues { key, remaining, entries } => entry_keys(entries)
            + seq![key] + remaining,
        _ => entry_keys(entries_of(state)),
    }
}

/// A step keeps the keys free of duplicates.
pub proof fn lemma_step_keeps_keys_unique(state: PipelineView, event: EventView)
    requires
        keys_of(state).no_duplicates(),
    ensures
        keys_of(state.step(event)).no_duplicates(),
{
    let next = state.step(event);
    match (state, event) {
        (PipelineView::ReadingEnvExample, EventView::FileRead { contents }) => {
            lemma_env_keys(contents);
            if env_keys(contents).len() > 0 {
                assert(keys_of(next) =~= env_keys(contents));
            }
        },
        (
            PipelineView::CollectingValues { key, remaining, entries },
            EventView::Answered { value },
        ) => {
            let before = keys_of(state);
            let after = keys_of(next);
            let at = entries.len() as int;
            if value.len() > 0 {
                assert(after =~= before);
            } else {
                // The key that was asked for is left out; the others stay
                // in their order.
                assert forall|i: int, j: int|
                    0 <= i < after.len() && 0 <= j < after.len() && i != j implies after[i]
                    != after[j] by {
                    let from_i = if i < at { i } else { i + 1 };
                    let from_j = if j < at { j } else { j + 1 };
                    assert(after[i] == before[from_i]);
                    assert(after[j] == before[from_j]);
                }
            }
        },
        _ => {},
    }
}

/// Whatever is reported to a deployment, no key is asked for twice, and the
/// entries that it keeps, and with them the environment file that it
/// writes, hold no key twice.
pub proof fn lemma_keys_are_unique(events: Seq<EventView>)
    ensures
        keys_of(run(PipelineView::start(), events)).no_duplicates(),
    decreases events.len(),
{
    if events.len() > 0 {
        lemma_keys_are_unique(events.drop_last());
        lemma_step_keeps_keys_unique(run(PipelineView::start(), events.drop_last()), events.last());
    }
}

/// The processes that were started and are not joined yet, once `events`
/// are known to a deployment that began at its start. A process is started
/// where the action of the state is to start it and the event tells that it
/// runs; it is joined where the action is to join it and the event tells
/// that it has exited.
pub open spec fn outstanding(events: Seq<EventView>) -> Set<Process>
    decreases events.len(),
{
    if events.len() == 0 {
        Set::empty()
    } else {
        let earlier = outstanding(events.drop_last());
        let state = run(PipelineView::start(), events.drop_last());
        match (state.action(), events.last()) {
            (ActionView::Spawn { process, .. }, EventView::Completed) => earlier.insert(process),
            (ActionView::Join { process }, EventView::Exited { .. }) => earlier.remove(process),
            _ => earlier,
        }
    }
}

/// The processes that run while a deployment is in `state`.
pub open spec fn running(state: PipelineView) -> Set<Process> {
    match state {
        PipelineView::Cloning { .. } => set![Process::CloneRepository],
        PipelineView::ReadingEnvExample => set![Process::InstallPackages],
        PipelineView::CollectingValues { .. } => set![Process::InstallPackages],
        PipelineView::AskingDomain { .. } => set![Process::InstallPackages],
        PipelineView::JoiningInstall { .. } => set![Process::InstallPackages],
        PipelineView::Bootstrapping => set![Process::Bootstrap],
        _ => Set::empty(),
    }
}

/// Every process is joined once, after it was started: as long as a
/// deployment is not aborted, the processes that were started and are not
/// joined yet are those that run in its state. So a process is joined only
/// while it runs, and then it is the only one; none runs when another is
/// started; and none runs when the deployment is complete.
pub proof fn lemma_processes_are_joined(events: Seq<EventView>)
    ensures
        !(run(PipelineView::start(), events) is Aborted) ==> outstanding(events) == running(
            run(PipelineView::start(), events),
        ),
        run(PipelineView::start(), events).action() matches ActionView::Join { process }
            ==> outstanding(events) == set![process],
        run(PipelineView::start(), events).action() is Spawn ==> outstanding(events)
            == Set::<Process>::empty(),
        run(PipelineView::start(), events) is Done ==> outstanding(events)
            == Set::<Process>::empty(),
    decreases events.len(),
{
    if events.len() > 0 {
        lemma_processes_are_joined(events.drop_last());
    }
}

/// A deployment that is aborted while nothing is known of the repository
/// starts and joins no process, neither before it is aborted nor after.
pub proof fn lemma_abort_before_clone_starts_no_process(
    events: Seq<EventView>,
    k: int,
    j: int,
)
    requires
        0 <= k < events.len(),
        run(PipelineView::start(), events.take(k)).stage() == Stage::Init,
        run(PipelineView::start(), events.take(k + 1)) is Aborted,
        0 <= j <= events.len(),
    ensures
        !(run(PipelineView::start(), events.take(j)).action() is Spawn),
        !(run(PipelineView::start(), events.take(j)).action() is Join),
        j > k ==> run(PipelineView::start(), events.take(j)) == run(
            PipelineView::start(),
            events.take(k + 1),
        ),
{
    let start = PipelineView::start();
    if j <= k {
        lemma_run_never_goes_back(start, events, j, k);
    } else {
        lemma_run_after_end(start, events, k + 1, j);
    }
}

/// A deployment that is aborted before the packages are installed and the
/// environment and the domain are known writes no file, neither before it
/// is aborted nor after. So nothing is written where the user cancels a
/// prompt, and nothing where the installation fails.
pub proof fn lemma_abort_before_files_writes_no_file(events: Seq<EventView>, k: int, j: int)
    requires
        0 <= k < events.len(),
        run(PipelineView::start(), events.take(k)).rank() <= (PipelineView::JoiningInstall {
            domain: Seq::empty(),
            entries: Seq::empty(),
        }).rank(),
        run(PipelineView::start(), events.take(k + 1)) is Aborted,
        0 <= j <= events.len(),
    ensures
        !(run(PipelineView::start(), events.take(j)).action() is WriteFile),
        j > k ==> run(PipelineView::start(), events.take(j)) == run(
            PipelineView::start(),
            events.take(k + 1),
        ),
{
    let start = PipelineView::start();
    if j <= k {
        lemma_run_never_goes_back(start, events, j, k);
    } else {
        lemma_run_after_end(start, events, k + 1, j);
    }
}

/// The state in which the user is asked for the first of `keys`, or for the
/// domain where there are none, with `entries` kept so far.
fn ask_next(keys: Vec<String>, entries: Vec<(String, String)>) -> (state: Pipeline)
    ensures
        state@ == asking_next(keys.deep_view(), entries.deep_view()),
{
    if keys.len() == 0 {
        Pipeline::AskingDomain { entries }
    } else {
        let mut remaining = keys;
        let key = remaining.remove(0);
        assert(remaining.deep_view() =~= keys.deep_view().skip(1));
        Pipeline::CollectingValues { key, remaining, entries }
    }
}

impl Pipeline {
    /// The state in which every deployment begins.
    pub fn start() -> (state: Pipeline)
        ensures
            state@ == PipelineView::start(),
    {
        Pipeline::AwaitingRepoUrl
    }

    /// Whether the deployment is over.
    pub fn has_ended(&self) -> (ended: bool)
        ensures
            ended == self@.has_ended(),
    {
        match self {
            Pipeline::Done => true,
            Pipeline::Aborted { .. } => true,
            _ => false,
        }
    }

    /// How far the deployment has come.
    pub fn stage(&self) -> (stage: Stage)
        ensures
            stage == self@.stage(),
    {
        match self {
            Pipeline::AwaitingRepoUrl => Stage::Init,
            Pipeline::CheckingRepo { .. } => Stage::Init,
            Pipeline::SpawningClone { .. } => Stage::UrlChecked,
            Pipeline::Cloning { .. } => Stage::UrlChecked,
            Pipeline::SpawningInstall => Stage::Cloned,
            Pipeline::ReadingEnvExample => Stage::Installing,
            Pipeline::CollectingValues { .. } => Stage::Installing,
            Pipeline::AskingDomain { .. } => Stage::Installing,
            Pipeline::JoiningInstall { .. } => Stage::Installing,
            Pipeline::WritingCaddyfile { .. } => Stage::Configured,
            Pipeline::WritingEnvFile { .. } => Stage::Configured,
            Pipeline::SpawningBootstrap => Stage::RenderedAndWritten,
            Pipeline::Bootstrapping => Stage::RenderedAndWritten,
            Pipeline::Bootstrapped => Stage::Bootstrapped,
            Pipeline::Done => Stage::Done,
            Pipeline::Aborted { .. } => Stage::Aborted,
        }
    }

    /// The action that the state waits for.
    pub fn action(&self) -> (action: Action)
        ensures
            action@ == self@.action(),
    {
        match self {
            Pipeline::AwaitingRepoUrl => Action::Prompt {
                message: String::from_str("Enter the URL of the repository:"),
                required: true,
            },
            Pipeline::CheckingRepo { repo_url } => Action::CheckRepository {
                url: repo_url.clone(),
            },
            Pipeline::SpawningClone { repo_url } => Action::Spawn {
                process: Process::CloneRepository,
                command: clone_command(repo_url.as_str()),
                capture_output: true,
            },
            Pipeline::Cloning { repo_url } => Action::Join { process: Process::CloneRepository },
            Pipeline::SpawningInstall => Action::Spawn {
                process: Process::InstallPackages,
                command: install_command(),
                capture_output: true,
            },
            Pipeline::ReadingEnvExample => Action::ReadFile { path: env_example_path() },
            Pipeline::CollectingValues { key, remaining, entries } => Action::Prompt {
                message: prompt_for_key(key.as_str()),
                required: false,
            },
            Pipeline::AskingDomain { entries } => Action::Prompt {
                message: String::from_str(
                    "Enter the domain: (ex. mysite.com, without 'www' prefix",
                ),
                required: true,
            },
            Pipeline::JoiningInstall { domain, entries } => Action::Join {
                process: Process::InstallPackages,
            },
            Pipeline::WritingCaddyfile { domain, entries } => Action::WriteFile {
                path: String::from_str(CADDY_FILE_PATH),
                contents: render_site_caddyfile(domain.as_str(), entries),
            },
            Pipeline::WritingEnvFile { entries } => Action::WriteFile {
                path: env_file_path(),
                contents: env_file_contents(entries),
            },
            Pipeline::SpawningBootstrap => Action::Spawn {
                process: Process::Bootstrap,
                command: bootstrap_command(),
                capture_output: false,
            },
            Pipeline::Bootstrapping => Action::Join { process: Process::Bootstrap },
            Pipeline::Bootstrapped => Action::Report { message: String::from_str("All done!") },
            Pipeline::Done => Action::Exit,
            Pipeline::Aborted { error } => Action::Fail { error: copy_of(error) },
        }
    }

    /// The line that tells the user what the deployment does next, where
    /// there is one for the state.
    pub fn announcement(&self) -> (line: Option<String>)
        ensures
            line.deep_view() == self@.announcement(),
    {
        match self {
            Pipeline::SpawningClone { repo_url } => {
                let parent = parent_path(LARAVEL_PROJECT_PATH);
                Some(String::from_str("Clone path: ").concat(parent.as_str()))
            },
            Pipeline::Cloning { repo_url } => Some(String::from_str("Cloning the repository...")),
            Pipeline::JoiningInstall { domain, entries } => Some(
                String::from_str("Waiting for all dependencies to be installed..."),
            ),
            Pipeline::WritingCaddyfile { domain, entries } => Some(
                String::from_str("Creating Caddyfile..."),
            ),
            Pipeline::WritingEnvFile { entries } => Some(String::from_str("Creating .env file...")),
            Pipeline::Bootstrapping => Some(String::from_str("Configuring Laravel project...")),
            _ => None,
        }
    }

    /// Whether there is a line that tells the user what the deployment does
    /// next.
    pub fn has_announcement(&self) -> (announced: bool)
        ensures
            announced == (self@.announcement() is Some),
    {
        match self {
            Pipeline::SpawningClone { .. } => true,
            Pipeline::Cloning { .. } => true,
            Pipeline::JoiningInstall { .. } => true,
            Pipeline::WritingCaddyfile { .. } => true,
            Pipeline::WritingEnvFile { .. } => true,
            Pipeline::Bootstrapping => true,
            _ => false,
        }
    }

    /// The state that follows once `event` is known.
    pub fn step(self, event: Event) -> (next: Pipeline)
        ensures
            next@ == self@.step(event@),
    {
        match &event {
            Event::Unannounced { .. } => {
                if self.has_announcement() {
                    return Pipeline::Aborted { error: DeployError::Input };
                }
                return self;
            },
            _ => {},
        }
        match self {
            Pipeline::AwaitingRepoUrl => match event {
                Event::Answered { value } => Pipeline::CheckingRepo { repo_url: value },
                Event::Failed { reason } => Pipeline::Aborted { error: DeployError::Input },
                _ => Pipeline::AwaitingRepoUrl,
            },
            Pipeline::CheckingRepo { repo_url } => match event {
                Event::Checked { status } => if status_is_success(status) {
                    Pipeline::SpawningClone { repo_url }
                } else {
                    Pipeline::Aborted { error: DeployError::NotFound { url: repo_url } }
                },
                Event::Failed { reason } => Pipeline::Aborted {
                    error: DeployError::Network { url: repo_url },
                },
                _ => Pipeline::CheckingRepo { repo_url },
            },
            Pipeline::SpawningClone { repo_url } => match event {
                Event::Completed => Pipeline::Cloning { repo_url },
                Event::Failed { reason } => Pipeline::Aborted {
                    error: DeployError::Spawn { process: Process::CloneRepository, reason },
                },
                _ => Pipeline::SpawningClone { repo_url },
            },
            Pipeline::Cloning { repo_url } => match event {
                Event::Exited { code } => if has_succeeded(code) {
                    Pipeline::SpawningInstall
                } else {
                    Pipeline::Aborted {
                        error: DeployError::Process {
                            process: Process::CloneRepository,
                            command: clone_command(repo_url.as_str()),
                            exit_status: code,
                        },
                    }
                },
                Event::Failed { reason } => Pipeline::Aborted {
                    error: DeployError::Process {
                        process: Process::CloneRepository,
                        command: clone_command(repo_url.as_str()),
                        exit_status: None,
                    },
                },
                _ => Pipeline::Cloning { repo_url },
            },
            Pipeline::SpawningInstall => match event {
                Event::Completed => Pipeline::ReadingEnvExample,
                Event::Failed { reason } => Pipeline::Aborted {
                    error: DeployError::Spawn { process: Process::InstallPackages, reason },
                },
                _ => Pipeline::SpawningInstall,
            },
            Pipeline::ReadingEnvExample => match event {
                Event::FileRead { contents } => {
                    let keys = extract_env_keys(contents.as_str());
                    let entries: Vec<(String, String)> = Vec::new();
                    assert(entries.deep_view() =~= Seq::<(Seq<char>, Seq<char>)>::empty());
                    ask_next(keys, entries)
                },
                Event::Failed { reason } => Pipeline::Aborted {
                    error: DeployError::Io { path: env_example_path() },
                },
                _ => Pipeline::ReadingEnvExample,
            },
            Pipeline::CollectingValues { key, remaining, entries } => match event {
                Event::Answered { value } => {
                    let mut entries = entries;
                    let ghost before = entries.deep_view();
                    match collect_entry(key, value) {
                        Some(entry) => {
                            entries.push(entry);
                            assert(entries.deep_view() =~= before.push((entry.0@, entry.1@)));
                        },
                        None => {},
                    }
                    ask_next(remaining, entries)
                },
                Event::Failed { reason } => Pipeline::Aborted { error: DeployError::Input },
                _ => Pipeline::CollectingValues { key, remaining, entries },
            },
            Pipeline::AskingDomain { entries } => match event {
                Event::Answered { value } => Pipeline::JoiningInstall { domain: value, entries },
                Event::Failed { reason } => Pipeline::Aborted { error: DeployError::Input },
                _ => Pipeline::AskingDomain { entries },
            },
            Pipeline::JoiningInstall { domain, entries } => match event {
                Event::Exited { code } => if has_succeeded(code) {
                    Pipeline::WritingCaddyfile { domain, entries }
                } else {
                    Pipeline::Aborted {
                        error: DeployError::Process {
                            process: Process::InstallPackages,
                            command: install_command(),
                            exit_status: code,
                        },
                    }
                },
                Event::Failed { reason } => Pipeline::Aborted {
                    error: DeployError::Process {
                        process: Process::InstallPackages,
                        command: install_command(),
                        exit_status: None,
                    },
                },
                _ => Pipeline::JoiningInstall { domain, entries },
            },
            Pipeline::WritingCaddyfile { domain, entries } => match event {
                Event::Completed => Pipeline::WritingEnvFile { entries },
                Event::Failed { reason } => Pipeline::Aborted {
                    error: DeployError::Io { path: String::from_str(CADDY_FILE_PATH) },
                },
                _ => Pipeline::WritingCaddyfile { domain, entries },
            },
            Pipeline::WritingEnvFile { entries } => match event {
                Event::Completed => Pipeline::SpawningBootstrap,
                Event::Failed { reason } => Pipeline::Aborted {
                    error: DeployError::Io { path: env_file_path() },
                },
                _ => Pipeline::WritingEnvFile { entries },
            },
            Pipeline::SpawningBootstrap => match event {
                Event::Completed => Pipeline::Bootstrapping,
                Event::Failed { reason } => Pipeline::Aborted {
                    error: DeployError::Spawn { process: Process::Bootstrap, reason },
                },
                _ => Pipeline::SpawningBootstrap,
            },
            Pipeline::Bootstrapping => match event {
                Event::Exited { code } => if has_succeeded(code) {
                    Pipeline::Bootstrapped
                } else {
                    Pipeline::Aborted {
                        error: DeployError::Process {
                            process: Process::Bootstrap,
                            command: bootstrap_command(),
                            exit_status: code,
                        },
                    }
                },
                Event::Failed { reason } => Pipeline::Aborted {
                    error: DeployError::Process {
                        process: Process::Bootstrap,
                        command: bootstrap_command(),
                        exit_status: None,
                    },
                },
                _ => Pipeline::Bootstrapping,
            },
            Pipeline::Bootstrapped => match event {
                Event::Completed => Pipeline::Done,
                Event::Failed { reason } => Pipeline::Aborted { error: DeployError::Input },
                _ => Pipeline::Bootstrapped,
            },
            Pipeline::Done => Pipeline::Done,
            Pipeline::Aborted { error } => Pipeline::Aborted { error },
        }
    }
}

/// A second `DeployError` that holds what `error` holds.
fn copy_of(error: &DeployError) -> (copy: DeployError)
    ensures
        copy@ == error@,
{
    match error {
        DeployError::Network { url } => DeployError::Network { url: url.clone() },
        DeployError::NotFound { url } => DeployError::NotFound { url: url.clone() },
        DeployError::Io { path } => DeployError::Io { path: path.clone() },
        DeployError::Input => DeployError::Input,
        DeployError::Spawn { process, reason } => DeployError::Spawn {
            process: *process,
            reason: reason.clone(),
        },
        DeployError::Process { process, command, exit_status } => DeployError::Process {
            process: *process,
            command: command.clone(),
            exit_status: *exit_status,
        },
    }
}

} // verus!
