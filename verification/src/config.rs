//! The settings of the editor, gathered from the user's and the project's
//! configuration files: the project's settings win.

use vstd::prelude::*;

verus! {

/// The settings of the editor.
#[derive(Debug, Clone)]
pub struct Config {
    pub workspace_root: Option<String>,
}

impl Default for Config {
    /// No setting given.
    fn default() -> (r: Config)
        ensures
            r.workspace_root is None,
    {
        Config { workspace_root: None }
    }
}

impl Config {
    /// The settings of `override_`, and those of `base` where `override_`
    /// gives none.
    pub fn merge(base: Config, override_: Config) -> (r: Config)
        ensures
            r.workspace_root == match override_.workspace_root {
                Some(root) => Some(root),
                None => base.workspace_root,
            },
    {
        Config {
            workspace_root: match override_.workspace_root {
                Some(root) => Some(root),
                None => base.workspace_root,
            },
        }
    }

    /// Merges the user's settings with the project's, given what each file
    /// held (`None` where there was no file to read): a missing file counts
    /// as one that gives no setting.
    pub fn load_merged(user: Option<Config>, project: Option<Config>) -> (r: Config)
        ensures
            r.workspace_root == match project {
                Some(Config { workspace_root: Some(root) }) => Some(root),
                _ => match user {
                    Some(c) => c.workspace_root,
                    None => None,
                },
            },
    {
        let user_config = match user {
            Some(c) => c,
            None => Config::default(),
        };
        let project_config = match project {
            Some(c) => c,
            None => Config::default(),
        };
        Config::merge(user_config, project_config)
    }
}

/// The settings service: holds the configuration the editor started with.
pub struct ConfigService {
    config: Config,
}

impl ConfigService {
    pub fn new(config: Config) -> (r: ConfigService)
        ensures
            r.spec_config() == config,
    {
        ConfigService { config }
    }

    pub closed spec fn spec_config(&self) -> Config {
        self.config
    }

    pub fn config(&self) -> (r: &Config)
        ensures
            *r == self.spec_config(),
    {
        &self.config
    }
}

} // verus!
