use laraploy::action::{Action, Event};
use laraploy::error::DeployError;
use laraploy::pipeline::{Pipeline, Stage};
use laraploy::process::{has_succeeded, Process};
use laraploy::repository::status_is_success;

const URL: &str = "https://github.com/acme/site";

const INSTALL: &str = "apt update -y && apt install -y git php8.3 php8.3-cli php8.3-fpm php8.3-sqlite3 php8.3-mbstring php8.3-xml php8.3-curl php8.3-zip php8.3-gd php8.3-bcmath php8.3-intl php8.3-soap php8.3-opcache caddy composer";

fn answered(value: &str) -> Event {
    Event::Answered { value: value.to_string() }
}

fn failed() -> Event {
    Event::Failed { reason: "no such thing".to_string() }
}

fn exited(code: i32) -> Event {
    Event::Exited { code: Some(code) }
}

fn pair(key: &str, value: &str) -> (String, String) {
    (key.to_string(), value.to_string())
}

fn run(events: Vec<Event>) -> (Pipeline, Vec<Action>) {
    let mut state = Pipeline::start();
    let mut actions = vec![state.action()];
    for event in events {
        state = state.step(event);
        actions.push(state.action());
    }
    (state, actions)
}

fn until_install_is_joined() -> Vec<Event> {
    vec![
        answered(URL),
        Event::Checked { status: 200 },
        Event::Completed,
        exited(0),
        Event::Completed,
        Event::FileRead { contents: "APP_NAME=Laravel\n# ports\nREVERB_PORT=\nDB_HOST=\n".to_string() },
        answered("Shop"),
        answered(""),
        answered("db.internal"),
        answered("example.com"),
    ]
}

#[test]
fn a_status_is_a_success_from_200_up_to_299() {
    assert!(status_is_success(200));
    assert!(status_is_success(204));
    assert!(status_is_success(299));
    assert!(!status_is_success(199));
    assert!(!status_is_success(300));
    assert!(!status_is_success(404));
    assert!(!status_is_success(0));
    assert!(!status_is_success(u16::MAX));
}

#[test]
fn a_process_succeeds_with_the_status_zero_only() {
    assert!(has_succeeded(Some(0)));
    assert!(!has_succeeded(Some(1)));
    assert!(!has_succeeded(Some(-1)));
    assert!(!has_succeeded(None));
}

#[test]
fn only_the_bootstrap_writes_to_the_terminal() {
    assert!(Process::CloneRepository.captures_output());
    assert!(Process::InstallPackages.captures_output());
    assert!(!Process::Bootstrap.captures_output());
}

#[test]
fn each_process_has_its_command() {
    assert_eq!(
        Process::CloneRepository.command(URL),
        "mkdir -p /var/www/laravel && git clone https://github.com/acme/site /var/www/laravel"
    );
    assert_eq!(Process::InstallPackages.command(URL), INSTALL);
    assert!(Process::Bootstrap.command(URL).starts_with("cd /var/www/laravel && composer"));
}

#[test]
fn a_deployment_begins_by_asking_for_the_repository() {
    let state = Pipeline::start();
    assert_eq!(state, Pipeline::AwaitingRepoUrl);
    assert_eq!(state.stage(), Stage::Init);
    assert!(!state.has_ended());
    assert_eq!(state.announcement(), None);
    assert_eq!(
        state.action(),
        Action::Prompt { message: "Enter the URL of the repository:".to_string(), required: true }
    );
}

#[test]
fn a_deployment_without_failure_runs_to_its_end() {
    let mut events = until_install_is_joined();
    events.extend(vec![exited(0), Event::Completed, Event::Completed, Event::Completed, exited(0), Event::Completed]);
    let (state, actions) = run(events);
    assert_eq!(state, Pipeline::Done);
    assert!(state.has_ended());
    let caddyfile = "example.com {
    root * /var/www/laravel/public
    encode zstd gzip
    php_fastcgi unix//run/php/php8.3-fpm.sock
    file_server
}

example.com:8001 {
    reverse_proxy 127.0.0.1:8002
}
";
    let want = vec![
        Action::Prompt { message: "Enter the URL of the repository:".to_string(), required: true },
        Action::CheckRepository { url: URL.to_string() },
        Action::Spawn {
            process: Process::CloneRepository,
            command: "mkdir -p /var/www/laravel && git clone https://github.com/acme/site /var/www/laravel"
                .to_string(),
            capture_output: true,
        },
        Action::Join { process: Process::CloneRepository },
        Action::Spawn { process: Process::InstallPackages, command: INSTALL.to_string(), capture_output: true },
        Action::ReadFile { path: "/var/www/laravel/.env.example".to_string() },
        Action::Prompt { message: "Enter the value for APP_NAME: ".to_string(), required: false },
        Action::Prompt { message: "Enter the value for REVERB_PORT: ".to_string(), required: false },
        Action::Prompt { message: "Enter the value for DB_HOST: ".to_string(), required: false },
        Action::Prompt {
            message: "Enter the domain: (ex. mysite.com, without 'www' prefix".to_string(),
            required: true,
        },
        Action::Join { process: Process::InstallPackages },
        Action::WriteFile { path: "/etc/caddy/Caddyfile".to_string(), contents: caddyfile.to_string() },
        Action::WriteFile {
            path: "/var/www/laravel/.env".to_string(),
            contents: "APP_NAME=\"Shop\"\nDB_HOST=db.internal".to_string(),
        },
        Action::Spawn {
            process: Process::Bootstrap,
            command: "cd /var/www/laravel && composer --no-interaction install && php artisan key:generate --force && touch database/database.sqlite && php artisan migrate --force && php artisan db:seed --force && php artisan storage:link && chown -R www-data:www-data /var/www/laravel && chmod -R 775 /var/www/laravel/storage && chmod -R 775 /var/www/laravel/bootstrap/cache"
                .to_string(),
            capture_output: false,
        },
        Action::Join { process: Process::Bootstrap },
        Action::Report { message: "All done!".to_string() },
        Action::Exit,
    ];
    assert_eq!(actions, want);
}

#[test]
fn the_stages_follow_one_another() {
    let mut events = until_install_is_joined();
    events.extend(vec![exited(0), Event::Completed, Event::Completed, Event::Completed, exited(0), Event::Completed]);
    let mut state = Pipeline::start();
    let mut stages = vec![state.stage()];
    for event in events {
        state = state.step(event);
        stages.push(state.stage());
    }
    assert_eq!(
        stages,
        vec![
            Stage::Init,
            Stage::Init,
            Stage::UrlChecked,
            Stage::UrlChecked,
            Stage::Cloned,
            Stage::Installing,
            Stage::Installing,
            Stage::Installing,
            Stage::Installing,
            Stage::Installing,
            Stage::Installing,
            Stage::Configured,
            Stage::Configured,
            Stage::RenderedAndWritten,
            Stage::RenderedAndWritten,
            Stage::Bootstrapped,
            Stage::Done,
        ]
    );
}

#[test]
fn a_repository_that_is_not_found_aborts_before_any_process() {
    let (state, actions) = run(vec![
        answered(URL),
        Event::Checked { status: 404 },
        Event::Completed,
        exited(0),
        Event::Completed,
    ]);
    let error = DeployError::NotFound { url: URL.to_string() };
    assert_eq!(state, Pipeline::Aborted { error: error.clone() });
    assert_eq!(state.stage(), Stage::Aborted);
    assert!(state.has_ended());
    assert_eq!(actions.len(), 6);
    for action in &actions {
        assert!(!matches!(action, Action::Spawn { .. }));
        assert!(!matches!(action, Action::Join { .. }));
    }
    assert_eq!(actions[2], Action::Fail { error: error.clone() });
    assert_eq!(actions[5], Action::Fail { error });
}

#[test]
fn a_check_that_cannot_be_made_is_no_missing_repository() {
    let (state, _) = run(vec![answered(URL), failed()]);
    assert_eq!(state, Pipeline::Aborted { error: DeployError::Network { url: URL.to_string() } });
}

#[test]
fn a_failed_install_aborts_before_any_file_is_written() {
    let mut events = until_install_is_joined();
    events.extend(vec![exited(100), Event::Completed, Event::Completed]);
    let (state, actions) = run(events);
    let error = DeployError::Process {
        process: Process::InstallPackages,
        command: INSTALL.to_string(),
        exit_status: Some(100),
    };
    assert_eq!(state, Pipeline::Aborted { error: error.clone() });
    for action in &actions {
        assert!(!matches!(action, Action::WriteFile { .. }));
    }
    assert_eq!(actions[actions.len() - 1], Action::Fail { error });
}

#[test]
fn an_install_that_was_ended_from_outside_has_failed() {
    let mut events = until_install_is_joined();
    events.push(Event::Exited { code: None });
    let (state, _) = run(events);
    assert_eq!(
        state,
        Pipeline::Aborted {
            error: DeployError::Process {
                process: Process::InstallPackages,
                command: INSTALL.to_string(),
                exit_status: None,
            },
        }
    );
}

#[test]
fn a_failed_clone_aborts_before_the_install() {
    let (state, actions) = run(vec![answered(URL), Event::Checked { status: 200 }, Event::Completed, exited(128)]);
    assert_eq!(
        state,
        Pipeline::Aborted {
            error: DeployError::Process {
                process: Process::CloneRepository,
                command: "mkdir -p /var/www/laravel && git clone https://github.com/acme/site /var/www/laravel"
                    .to_string(),
                exit_status: Some(128),
            },
        }
    );
    let spawned = actions.iter().filter(|a| matches!(a, Action::Spawn { .. })).count();
    assert_eq!(spawned, 1);
}

#[test]
fn a_command_that_cannot_be_started_aborts() {
    let (state, _) = run(vec![answered(URL), Event::Checked { status: 200 }, failed()]);
    assert_eq!(
        state,
        Pipeline::Aborted {
            error: DeployError::Spawn {
                process: Process::CloneRepository,
                reason: "no such thing".to_string(),
            },
        }
    );
    let (state, _) =
        run(vec![answered(URL), Event::Checked { status: 200 }, Event::Completed, exited(0), failed()]);
    assert_eq!(
        state,
        Pipeline::Aborted {
            error: DeployError::Spawn {
                process: Process::InstallPackages,
                reason: "no such thing".to_string(),
            },
        }
    );
}

#[test]
fn an_example_file_that_cannot_be_read_aborts() {
    let (state, _) = run(vec![
        answered(URL),
        Event::Checked { status: 200 },
        Event::Completed,
        exited(0),
        Event::Completed,
        failed(),
    ]);
    assert_eq!(
        state,
        Pipeline::Aborted { error: DeployError::Io { path: "/var/www/laravel/.env.example".to_string() } }
    );
}

#[test]
fn a_cancelled_prompt_aborts_and_nothing_is_written() {
    let mut events = until_install_is_joined();
    events.truncate(7);
    events.push(failed());
    events.extend(vec![exited(0), Event::Completed]);
    let (state, actions) = run(events);
    assert_eq!(state, Pipeline::Aborted { error: DeployError::Input });
    for action in &actions {
        assert!(!matches!(action, Action::WriteFile { .. }));
    }
    let (state, _) = run(vec![failed()]);
    assert_eq!(state, Pipeline::Aborted { error: DeployError::Input });
}

#[test]
fn a_file_that_cannot_be_written_aborts() {
    let mut events = until_install_is_joined();
    events.extend(vec![exited(0), failed()]);
    let (state, _) = run(events);
    assert_eq!(state, Pipeline::Aborted { error: DeployError::Io { path: "/etc/caddy/Caddyfile".to_string() } });
    let mut events = until_install_is_joined();
    events.extend(vec![exited(0), Event::Completed, failed()]);
    let (state, _) = run(events);
    assert_eq!(
        state,
        Pipeline::Aborted { error: DeployError::Io { path: "/var/www/laravel/.env".to_string() } }
    );
}

#[test]
fn a_failed_bootstrap_aborts_after_the_files_are_written() {
    let mut events = until_install_is_joined();
    events.extend(vec![exited(0), Event::Completed, Event::Completed, Event::Completed, exited(1)]);
    let (state, actions) = run(events);
    assert!(matches!(
        state,
        Pipeline::Aborted { error: DeployError::Process { process: Process::Bootstrap, exit_status: Some(1), .. } }
    ));
    let written = actions.iter().filter(|a| matches!(a, Action::WriteFile { .. })).count();
    assert_eq!(written, 2);
}

#[test]
fn an_event_that_answers_nothing_changes_nothing() {
    let state = Pipeline::CheckingRepo { repo_url: URL.to_string() };
    assert_eq!(state.clone().step(Event::Completed), state);
    assert_eq!(state.clone().step(answered("x")), state);
    assert_eq!(state.clone().step(exited(0)), state);
    let waiting = Pipeline::JoiningInstall { domain: "example.com".to_string(), entries: Vec::new() };
    assert_eq!(waiting.clone().step(Event::Completed), waiting);
    assert_eq!(waiting.clone().step(Event::Checked { status: 200 }), waiting);
}

#[test]
fn a_deployment_that_has_ended_stays_as_it_is() {
    let aborted = Pipeline::Aborted { error: DeployError::Input };
    for event in [answered("x"), failed(), exited(0), Event::Completed, Event::Checked { status: 200 }] {
        assert_eq!(aborted.clone().step(event.clone()), aborted);
        assert_eq!(Pipeline::Done.step(event), Pipeline::Done);
    }
}

#[test]
fn an_example_file_without_keys_leads_to_the_domain() {
    let state = Pipeline::ReadingEnvExample.step(Event::FileRead { contents: "# nothing\n\n".to_string() });
    assert_eq!(state, Pipeline::AskingDomain { entries: Vec::new() });
}

#[test]
fn the_keys_are_asked_for_in_their_order() {
    let state = Pipeline::ReadingEnvExample.step(Event::FileRead { contents: "A=1\nB=2\nA=3\nC=\n".to_string() });
    assert_eq!(
        state,
        Pipeline::CollectingValues {
            key: "A".to_string(),
            remaining: vec!["B".to_string(), "C".to_string()],
            entries: Vec::new(),
        }
    );
    let state = state.step(answered("x"));
    assert_eq!(
        state,
        Pipeline::CollectingValues {
            key: "B".to_string(),
            remaining: vec!["C".to_string()],
            entries: vec![pair("A", "x")],
        }
    );
    let state = state.step(answered(""));
    assert_eq!(
        state,
        Pipeline::CollectingValues { key: "C".to_string(), remaining: Vec::new(), entries: vec![pair("A", "x")] }
    );
    let state = state.step(answered("z"));
    assert_eq!(state, Pipeline::AskingDomain { entries: vec![pair("A", "x"), pair("C", "z")] });
}

#[test]
fn the_ports_of_the_answers_reach_the_proxy_configuration() {
    let state = Pipeline::WritingCaddyfile {
        domain: "shop.test".to_string(),
        entries: vec![pair("REVERB_PORT", "7001"), pair("REVERB_SERVER_PORT", "7002")],
    };
    match state.action() {
        Action::WriteFile { path, contents } => {
            assert_eq!(path, "/etc/caddy/Caddyfile");
            assert!(contents.contains("shop.test:7001 {"));
            assert!(contents.contains("reverse_proxy 127.0.0.1:7002"));
        },
        other => panic!("{:?}", other),
    }
}

#[test]
fn the_announcements_tell_what_comes_next() {
    let url = URL.to_string();
    assert_eq!(
        Pipeline::SpawningClone { repo_url: url.clone() }.announcement(),
        Some("Clone path: /var/www".to_string())
    );
    assert_eq!(
        Pipeline::Cloning { repo_url: url }.announcement(),
        Some("Cloning the repository...".to_string())
    );
    assert_eq!(
        Pipeline::JoiningInstall { domain: String::new(), entries: Vec::new() }.announcement(),
        Some("Waiting for all dependencies to be installed...".to_string())
    );
    assert_eq!(
        Pipeline::WritingCaddyfile { domain: String::new(), entries: Vec::new() }.announcement(),
        Some("Creating Caddyfile...".to_string())
    );
    assert_eq!(
        Pipeline::WritingEnvFile { entries: Vec::new() }.announcement(),
        Some("Creating .env file...".to_string())
    );
    assert_eq!(Pipeline::Bootstrapping.announcement(), Some("Configuring Laravel project...".to_string()));
    assert_eq!(Pipeline::ReadingEnvExample.announcement(), None);
    assert_eq!(Pipeline::Done.announcement(), None);
}

#[test]
fn each_failure_has_its_message() {
    assert_eq!(
        DeployError::Network { url: URL.to_string() }.message(),
        "Error while checking if the repository \"https://github.com/acme/site\" exists!"
    );
    assert_eq!(
        DeployError::NotFound { url: URL.to_string() }.message(),
        "The repository \"https://github.com/acme/site\" does not exist"
    );
    assert_eq!(
        DeployError::Io { path: "/etc/caddy/Caddyfile".to_string() }.message(),
        "Error while accessing the file /etc/caddy/Caddyfile"
    );
    assert_eq!(DeployError::Input.message(), "Error while reading from or writing to the terminal!");
    assert_eq!(
        DeployError::Spawn { process: Process::CloneRepository, reason: "sh: not found".to_string() }.message(),
        "Error while cloning the repository! (sh: not found)"
    );
    assert_eq!(
        DeployError::Spawn { process: Process::InstallPackages, reason: "denied".to_string() }.message(),
        "Error while installing PHP extensions! (denied)"
    );
    assert_eq!(
        DeployError::Spawn { process: Process::Bootstrap, reason: String::new() }.message(),
        "Error while configuring Laravel! ()"
    );
    assert_eq!(
        DeployError::Process { process: Process::Bootstrap, command: "php artisan".to_string(), exit_status: Some(2) }
            .message(),
        "The command failed: php artisan"
    );
}

#[test]
fn every_process_is_started_once_and_joined_once_after_it() {
    let mut events = until_install_is_joined();
    events.extend(vec![exited(0), Event::Completed, Event::Completed, Event::Completed, exited(0), Event::Completed]);
    let (_, actions) = run(events);
    for process in [Process::CloneRepository, Process::InstallPackages, Process::Bootstrap] {
        let started: Vec<usize> = actions
            .iter()
            .enumerate()
            .filter(|(_, a)| matches!(a, Action::Spawn { process: p, .. } if *p == process))
            .map(|(i, _)| i)
            .collect();
        let joined: Vec<usize> = actions
            .iter()
            .enumerate()
            .filter(|(_, a)| matches!(a, Action::Join { process: p } if *p == process))
            .map(|(i, _)| i)
            .collect();
        assert_eq!(started.len(), 1);
        assert_eq!(joined.len(), 1);
        assert!(started[0] < joined[0]);
    }
}

#[test]
fn the_install_runs_while_the_user_is_asked() {
    let (_, actions) = run(until_install_is_joined());
    let started = actions
        .iter()
        .position(|a| matches!(a, Action::Spawn { process: Process::InstallPackages, .. }))
        .unwrap();
    let joined =
        actions.iter().position(|a| matches!(a, Action::Join { process: Process::InstallPackages })).unwrap();
    let asked = actions
        .iter()
        .enumerate()
        .filter(|(i, a)| *i > started && *i < joined && matches!(a, Action::Prompt { .. }))
        .count();
    assert_eq!(asked, 4);
}

#[test]
fn a_line_that_cannot_be_shown_aborts_and_leaves_the_action_undone() {
    let unannounced = Event::Unannounced { reason: "closed".to_string() };
    let mut events = until_install_is_joined();
    events.push(unannounced.clone());
    let (state, actions) = run(events);
    assert_eq!(state, Pipeline::Aborted { error: DeployError::Input });
    for action in &actions {
        assert!(!matches!(action, Action::WriteFile { .. }));
    }
    let writing = Pipeline::WritingEnvFile { entries: Vec::new() };
    assert!(writing.has_announcement());
    assert_eq!(writing.step(unannounced.clone()), Pipeline::Aborted { error: DeployError::Input });
}

#[test]
fn a_state_without_a_line_is_not_touched_by_a_line_that_cannot_be_shown() {
    let unannounced = Event::Unannounced { reason: "closed".to_string() };
    for state in [
        Pipeline::AwaitingRepoUrl,
        Pipeline::ReadingEnvExample,
        Pipeline::SpawningInstall,
        Pipeline::Done,
        Pipeline::Aborted { error: DeployError::Io { path: "x".to_string() } },
    ] {
        assert!(!state.has_announcement());
        assert_eq!(state.announcement(), None);
        assert_eq!(state.clone().step(unannounced.clone()), state);
    }
}
