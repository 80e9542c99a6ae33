//! The settings that are kept between runs.

use vstd::prelude::*;

verus! {

/// The saved settings.
#[derive(Debug, PartialEq, Eq)]
pub struct Config {
    pub auth_token: String,
    /// The project to serve when the command line names none; empty if none
    /// was saved.
    pub project: String,
}

/// The saved settings by their texts.
pub struct ConfigView {
    pub auth_token: Seq<char>,
    pub project: Seq<char>,
}

impl View for Config {
    type V = ConfigView;

    open spec fn view(&self) -> ConfigView {
        ConfigView { auth_token: self.auth_token@, project: self.project@ }
    }
}

impl Default for Config {
    /// The settings of a first run: nothing saved.
    fn default() -> (config: Self)
        ensures
            config@ == (ConfigView { auth_token: Seq::empty(), project: Seq::empty() }),
    {
        Config { auth_token: String::new(), project: String::new() }
    }
}

impl Config {
    /// The settings with `project` saved in place of the project they held.
    pub fn with_project(self, project: String) -> (config: Self)
        ensures
            config@ == (ConfigView { auth_token: self.auth_token@, project: project@ }),
    {
        Config { auth_token: self.auth_token, project }
    }
}

} // verus!
