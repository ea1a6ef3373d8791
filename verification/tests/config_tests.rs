use chak::config::{
    essentials_files_to_create, essentials_folds_to_create, get_blob_fold_path,
    get_chak_fold_path, get_commit_log_file_path, get_commits_fold_path, get_config,
    get_config_file_path, get_current_chak_path, get_global_config, get_global_config_path,
    get_nested_trees_fold_path, get_root_trees_fold_path, get_stage_file_path,
    get_version_head_fold_path, get_versions_fold_path, Config, GlobalConfig,
};
use chak::error::ChakError;

const CD: &str = "/home/u/proj";

#[test]
fn repository_paths() {
    assert_eq!(get_current_chak_path(CD), "/home/u/proj/.chak/");
    assert_eq!(get_chak_fold_path(CD), "/home/u/proj/.chak/");
    assert_eq!(get_blob_fold_path(CD), "/home/u/proj/.chak/blobs");
    assert_eq!(get_versions_fold_path(CD), "/home/u/proj/.chak/versions");
    assert_eq!(get_root_trees_fold_path(CD), "/home/u/proj/.chak/root_trees");
    assert_eq!(get_commits_fold_path(CD), "/home/u/proj/.chak/commits");
    assert_eq!(get_version_head_fold_path(CD), "/home/u/proj/.chak/version_heads");
    assert_eq!(get_nested_trees_fold_path(CD), "/home/u/proj/.chak/nested_trees");
    assert_eq!(get_commit_log_file_path(CD), "/home/u/proj/.chak/commit.log");
    assert_eq!(get_stage_file_path(CD), "/home/u/proj/.chak/stage");
    assert_eq!(get_config_file_path(CD), "/home/u/proj/.chak/config");
}

#[test]
fn essentials() {
    assert_eq!(
        essentials_folds_to_create(),
        vec!["blobs", "versions", "root_trees", "commits", "nested_trees", "commits"]
    );
    assert_eq!(essentials_files_to_create(), vec!["stage", "commit.log", "config"]);
}

#[test]
fn global_config_defaults_and_aliases() {
    let mut g = GlobalConfig::new();
    assert_eq!(g.global_vcs_ignore_file, ".ignore");
    assert!(!g.global_vcs_work_with_nested_ignore_file);
    assert_eq!(g.global_vcs_alias.len(), 0);
    g.create_global_vcs_alias("commit".to_string(), "ci".to_string());
    g.create_global_vcs_alias("status".to_string(), "st".to_string());
    g.create_global_vcs_alias("commit".to_string(), "c".to_string());
    assert_eq!(g.global_vcs_alias.get(&"commit".to_string()), Some("c".to_string()));
    assert_eq!(g.global_vcs_alias.len(), 2);
    g.remove_global_vcs_alias("commit".to_string());
    assert_eq!(g.global_vcs_alias.get(&"commit".to_string()), None);
    assert_eq!(g.global_vcs_alias.get(&"status".to_string()), Some("st".to_string()));
    g.set_global_vcs_work_with_nested_ignore_file(true);
    assert!(g.global_vcs_work_with_nested_ignore_file);
}

#[test]
fn config_from_global() {
    let mut g = GlobalConfig::new();
    g.create_global_vcs_alias("commit".to_string(), "ci".to_string());
    g.set_global_vcs_work_with_nested_ignore_file(true);
    let mut c = Config::new(&g);
    assert!(c.vcs_work_with_nested_ignore_file);
    assert_eq!(c.vcs_command_alias.get(&"commit".to_string()), Some("ci".to_string()));
    assert_eq!(c.vcs_remotes.len(), 0);
    c.add_remote("origin".to_string(), "https://example.org/r".to_string());
    assert_eq!(
        c.vcs_remotes.get(&"origin".to_string()),
        Some("https://example.org/r".to_string())
    );
    c.remove_remote("origin".to_string());
    assert_eq!(c.vcs_remotes.len(), 0);
    c.create_alias("add".to_string(), "a".to_string());
    c.remove_alias("commit".to_string());
    assert_eq!(c.vcs_command_alias.to_pairs(), vec![("add".to_string(), "a".to_string())]);
    c.set_work_with_nested_ignore_file(false);
    assert!(!c.vcs_work_with_nested_ignore_file);
}

#[test]
fn alias_created_then_removed_is_gone() {
    let mut c = get_config(None);
    c.create_alias("x".to_string(), "y".to_string());
    c.remove_alias("x".to_string());
    assert_eq!(c.vcs_command_alias.len(), 0);
}

#[test]
fn config_defaults_when_unreadable() {
    let c = get_config(None);
    assert!(!c.vcs_work_with_nested_ignore_file);
    assert_eq!(c.vcs_command_alias.len(), 0);
    let mut g = GlobalConfig::new();
    g.set_global_vcs_work_with_nested_ignore_file(true);
    let kept = get_global_config(Some(g));
    assert!(kept.global_vcs_work_with_nested_ignore_file);
    assert!(!get_global_config(None).global_vcs_work_with_nested_ignore_file);
    let read = get_config(Some(Config::new(&kept)));
    assert!(read.vcs_work_with_nested_ignore_file);
}

#[test]
fn global_config_path_choices() {
    assert_eq!(
        get_global_config_path(Some("/etc/chak.toml".to_string()), Some("/home/u/.config".to_string()))
            .unwrap(),
        "/etc/chak.toml"
    );
    assert_eq!(
        get_global_config_path(None, Some("/home/u/.config".to_string())).unwrap(),
        "/home/u/.config/chakvcs/global_config.toml"
    );
    match get_global_config_path(None, None) {
        Err(ChakError::EnvVarNotFound(m)) => {
            assert_eq!(m, "Environment variable not found global_config.toml")
        }
        other => panic!("unexpected {:?}", other),
    }
}
