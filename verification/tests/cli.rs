use apimimic_cli::cli::{choose_project, startup, Cli, Commands, ServerSettings, Startup};
use apimimic_cli::config::Config;

fn saved(project: &str) -> Config {
    Config { auth_token: "token".to_string(), project: project.to_string() }
}

fn run(project: Option<&str>, listen: &str, server: Option<&str>) -> Cli {
    Cli {
        command: Some(Commands::Run {
            project: project.map(str::to_string),
            listen: listen.to_string(),
            remote: "https://cli.apimimic.com".to_string(),
            server: server.map(str::to_string),
            remote_ping: "https://cli-checkin.apimimic.com".to_string(),
        }),
    }
}

fn settings(listen: &str, project: &str, target: Option<&str>) -> ServerSettings {
    ServerSettings {
        listen: listen.to_string(),
        remote_base: "https://cli.apimimic.com".to_string(),
        project_id: project.to_string(),
        proxy_enabled: target.is_some(),
        target_server: target.map(str::to_string),
        remote_ping: "https://cli-checkin.apimimic.com".to_string(),
    }
}

#[test]
fn default_config_holds_nothing() {
    assert_eq!(Config::default(), Config { auth_token: String::new(), project: String::new() });
}

#[test]
fn with_project_keeps_the_token() {
    assert_eq!(saved("old").with_project("new".to_string()), saved("new"));
}

#[test]
fn named_project_comes_first() {
    assert_eq!(choose_project(Some("a".to_string()), &"b".to_string()), Some("a".to_string()));
    assert_eq!(choose_project(Some("a".to_string()), &String::new()), Some("a".to_string()));
}

#[test]
fn saved_project_stands_in_for_a_missing_or_empty_one() {
    assert_eq!(choose_project(None, &"b".to_string()), Some("b".to_string()));
    assert_eq!(choose_project(Some(String::new()), &"b".to_string()), Some("b".to_string()));
}

#[test]
fn no_project_at_all() {
    assert_eq!(choose_project(None, &String::new()), None);
    assert_eq!(choose_project(Some(String::new()), &String::new()), None);
}

#[test]
fn no_command_shows_help() {
    assert_eq!(startup(Cli { command: None }, saved("p")), Startup::Help);
}

#[test]
fn set_project_saves_it() {
    let cli = Cli { command: Some(Commands::SetProject { project: "new".to_string() }) };
    assert_eq!(startup(cli, saved("old")), Startup::Save(saved("new")));
}

#[test]
fn run_serves_with_the_given_settings() {
    assert_eq!(
        startup(run(Some("p"), "127.0.0.1:8080", None), saved("")),
        Startup::Serve(settings("127.0.0.1:8080", "p", None))
    );
}

#[test]
fn run_takes_the_forms_of_listen_and_server() {
    assert_eq!(
        startup(run(None, "HTTP://LocalHost:3000", Some("localhost:9000")), saved("kept")),
        Startup::Serve(settings("localhost:3000", "kept", Some("http://localhost:9000")))
    );
}

#[test]
fn run_without_project_gives_up() {
    assert_eq!(startup(run(None, "127.0.0.1:8080", None), saved("")), Startup::NoProject);
    assert_eq!(startup(run(Some(""), "https://x", None), saved("")), Startup::NoProject);
}

#[test]
fn run_with_https_listen_gives_up() {
    assert_eq!(
        startup(run(Some("p"), "https://localhost", None), saved("")),
        Startup::BadListen("HTTPS is not supported for local server".to_string())
    );
}
