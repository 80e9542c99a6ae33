//! The command line, and what the program does for it.

use crate::config::{Config, ConfigView};
use crate::server::option_view;
use crate::utils::{listen_address, lowercase_of, parse_listen_address, parse_server_url, server_url};
use vstd::prelude::*;
use vstd::string::*;

verus! {

/// A command line.
#[derive(Debug, PartialEq, Eq)]
pub struct Cli {
    pub command: Option<Commands>,
}

/// The commands.
#[derive(Debug, PartialEq, Eq)]
#[allow(inconsistent_fields)]
pub enum Commands {
    /// Save the default project key.
    SetProject { project: String },
    /// Start the gateway.
    Run {
        /// The project key.
        project: Option<String>,
        /// The local address to listen on.
        listen: String,
        /// The decision service's URL.
        remote: String,
        /// The backend's URL; with one, requests that are not mocked go there.
        server: Option<String>,
        /// The heartbeat service's URL.
        remote_ping: String,
    },
}

/// What the gateway is started with.
#[derive(Debug, PartialEq, Eq)]
pub struct ServerSettings {
    pub listen: String,
    pub remote_base: String,
    pub project_id: String,
    pub proxy_enabled: bool,
    pub target_server: Option<String>,
    pub remote_ping: String,
}

/// The gateway's settings by their texts.
pub struct ServerSettingsView {
    pub listen: Seq<char>,
    pub remote_base: Seq<char>,
    pub project_id: Seq<char>,
    pub proxy_enabled: bool,
    pub target_server: Option<Seq<char>>,
    pub remote_ping: Seq<char>,
}

impl View for ServerSettings {
    type V = ServerSettingsView;

    open spec fn view(&self) -> ServerSettingsView {
        ServerSettingsView {
            listen: self.listen@,
            remote_base: self.remote_base@,
            project_id: self.project_id@,
            proxy_enabled: self.proxy_enabled,
            target_server: option_view(self.target_server),
            remote_ping: self.remote_ping@,
        }
    }
}

/// What the program does for a command line.
#[derive(Debug, PartialEq, Eq)]
pub enum Startup {
    /// Save these settings.
    Save(Config),
    /// Start the gateway.
    Serve(ServerSettings),
    /// Give up: no project was named and none is saved.
    NoProject,
    /// Give up: the listen address is refused, with this message.
    BadListen(String),
    /// Show how the program is used.
    Help,
}

/// A start by its texts.
pub enum StartupView {
    Save(ConfigView),
    Serve(ServerSettingsView),
    NoProject,
    BadListen(Seq<char>),
    Help,
}

impl View for Startup {
    type V = StartupView;

    open spec fn view(&self) -> StartupView {
        match self {
            Startup::Save(config) => StartupView::Save(config@),
            Startup::Serve(settings) => StartupView::Serve(settings@),
            Startup::NoProject => StartupView::NoProject,
            Startup::BadListen(message) => StartupView::BadListen(message@),
            Startup::Help => StartupView::Help,
        }
    }
}

/// The project to serve: the one named on the command line unless it is
/// missing or empty, else the saved one unless that is empty.
pub open spec fn chosen_project(named: Option<Seq<char>>, saved: Seq<char>) -> Option<Seq<char>> {
    if named is Some && named->0.len() > 0 {
        named
    } else if saved.len() > 0 {
        Some(saved)
    } else {
        None
    }
}

/// What the program does for the command `run`.
pub open spec fn run_plan(
    project: Option<Seq<char>>,
    listen: Seq<char>,
    remote: Seq<char>,
    server: Option<Seq<char>>,
    remote_ping: Seq<char>,
    saved: Seq<char>,
) -> StartupView {
    match chosen_project(project, saved) {
        None => StartupView::NoProject,
        Some(project_id) => match listen_address(lowercase_of(listen)) {
            Err(message) => StartupView::BadListen(message),
            Ok(address) => StartupView::Serve(
                ServerSettingsView {
                    listen: address,
                    remote_base: remote,
                    project_id,
                    proxy_enabled: server is Some,
                    target_server: match server {
                        Some(text) => Some(server_url(text, lowercase_of(text))),
                        None => None,
                    },
                    remote_ping,
                },
            ),
        },
    }
}

/// What the program does for a command line, given the saved settings.
pub open spec fn planned(cli: Cli, config: ConfigView) -> StartupView {
    match cli.command {
        None => StartupView::Help,
        Some(Commands::SetProject { project }) => StartupView::Save(
            ConfigView { auth_token: config.auth_token, project: project@ },
        ),
        Some(Commands::Run { project, listen, remote, server, remote_ping }) => run_plan(
            option_view(project),
            listen@,
            remote@,
            option_view(server),
            remote_ping@,
            config.project,
        ),
    }
}

/// The project to serve.
pub fn choose_project(named: Option<String>, saved: &String) -> (project: Option<String>)
    ensures
        option_view(project) == chosen_project(option_view(named), saved@),
{
    match named {
        Some(text) if !text.as_str().is_empty() => Some(text),
        _ => if !saved.as_str().is_empty() {
            Some(saved.clone())
        } else {
            None
        },
    }
}

/// What the program does for a command line, given the saved settings.
pub fn startup(cli: Cli, config: Config) -> (plan: Startup)
    ensures
        plan@ == planned(cli, config@),
{
    match cli.command {
        None => Startup::Help,
        Some(Commands::SetProject { project }) => Startup::Save(config.with_project(project)),
        Some(Commands::Run { project, listen, remote, server, remote_ping }) => {
            match choose_project(project, &config.project) {
                None => Startup::NoProject,
                Some(project_id) => match parse_listen_address(listen.as_str()) {
                    Err(message) => Startup::BadListen(message),
                    Ok(address) => {
                        let target_server = parse_server_url(&server);
                        Startup::Serve(
                            ServerSettings {
                                listen: address,
                                remote_base: remote,
                                project_id,
                                proxy_enabled: target_server.is_some(),
                                target_server,
                                remote_ping,
                            },
                        )
                    },
                },
            }
        },
    }
}

} // verus!
