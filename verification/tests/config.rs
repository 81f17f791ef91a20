use forge::config::{Config, ConfigService};

#[test]
fn merge_project_overrides_user() {
    let base = Config {
        workspace_root: Some("/user".to_string()),
    };
    let override_ = Config {
        workspace_root: Some("/project".to_string()),
    };

    let merged = Config::merge(base, override_);

    assert_eq!(merged.workspace_root, Some("/project".to_string()));
}

#[test]
fn merge_keeps_user_when_project_omits() {
    let base = Config {
        workspace_root: Some("/user".to_string()),
    };
    let override_ = Config::default();

    let merged = Config::merge(base, override_);

    assert_eq!(merged.workspace_root, Some("/user".to_string()));
}

#[test]
fn load_merged_none_paths_returns_default() {
    let config = Config::load_merged(None, None);
    assert_eq!(config.workspace_root, None);
}

#[test]
fn load_merged_project_overrides_user_end_to_end() {
    let user = Config {
        workspace_root: Some("/user".to_string()),
    };
    let project = Config {
        workspace_root: Some("/project".to_string()),
    };

    let config = Config::load_merged(Some(user), Some(project));

    assert_eq!(config.workspace_root, Some("/project".to_string()));
}

#[test]
fn load_merged_keeps_user_when_project_file_is_missing() {
    let user = Config {
        workspace_root: Some("/user".to_string()),
    };
    let config = Config::load_merged(Some(user), None);
    assert_eq!(config.workspace_root, Some("/user".to_string()));
}

#[test]
fn load_merged_keeps_user_when_project_gives_no_root() {
    let user = Config {
        workspace_root: Some("/user".to_string()),
    };
    let config = Config::load_merged(Some(user), Some(Config::default()));
    assert_eq!(config.workspace_root, Some("/user".to_string()));
}

#[test]
fn config_service_holds_its_config() {
    let service = ConfigService::new(Config {
        workspace_root: Some("/root".to_string()),
    });
    assert_eq!(service.config().workspace_root, Some("/root".to_string()));
}
