//! Names and places of the repository's files, and the repository and global settings.
//!
//! Paths are texts; a path below the working directory is built from the working
//! directory's path, which the caller supplies.
use crate::error::ChakError;
use crate::string_map::StringMap;
use crate::text::{join_path, spec_join_path};
use vstd::prelude::*;
use vstd::string::*;

verus! {

pub const APPLICATION_NAME: &'static str = "chakvcs";
pub const CHAK_FOLDER_NAME: &'static str = ".chak/";
pub const VCS_CONFIG_NAME: &'static str = "config";
pub const VCS_IGNORE_FILE_NAME: &'static str = ".ignore";
pub const REGISTER_NAME: &'static str = "entries";
pub const BLOBS_DIR_NAME: &'static str = "blobs";
pub const VERSIONS_DIR_NAME: &'static str = "versions";
pub const ROOT_TREES_DIR_NAME: &'static str = "root_trees";
pub const COMMITS_DIR_NAME: &'static str = "commits";
pub const NESTED_TREES_DIR_NAME: &'static str = "nested_trees";
pub const VERSION_HEADS_DIR_NAME: &'static str = "version_heads";
pub const COMMIT_LOG_FILE_NAME: &'static str = "commit.log";
pub const STAGE_FILE_NAME: &'static str = "stage";
pub const CHAK_GLOBAL_CONFIG: &'static str = "global_config.toml";
pub const CHAK_GLOBAL_CONFIG_ENV: &'static str = "CHAK_GLOBAL_CONFIG_ENV";

/// The repository folder of a working directory.
pub open spec fn chak_fold(current_dir: Seq<char>) -> Seq<char> {
    spec_join_path(current_dir, CHAK_FOLDER_NAME@)
}

/// The repository folder of the working directory.
pub fn get_current_chak_path(current_dir: &str) -> (res: String)
    ensures
        res@ == chak_fold(current_dir@),
{
    join_path(current_dir, CHAK_FOLDER_NAME)
}

/// The repository folder of the working directory.
pub fn get_chak_fold_path(current_dir: &str) -> (res: String)
    ensures
        res@ == chak_fold(current_dir@),
{
    join_path(current_dir, CHAK_FOLDER_NAME)
}

/// The path of `name` in the repository folder.
fn in_chak_fold(current_dir: &str, name: &str) -> (res: String)
    ensures
        res@ == spec_join_path(chak_fold(current_dir@), name@),
{
    let fold = get_chak_fold_path(current_dir);
    join_path(fold.as_str(), name)
}

/// Where blobs are stored.
pub fn get_blob_fold_path(current_dir: &str) -> (res: String)
    ensures
        res@ == spec_join_path(chak_fold(current_dir@), BLOBS_DIR_NAME@),
{
    in_chak_fold(current_dir, BLOBS_DIR_NAME)
}

/// Where versions are stored.
pub fn get_versions_fold_path(current_dir: &str) -> (res: String)
    ensures
        res@ == spec_join_path(chak_fold(current_dir@), VERSIONS_DIR_NAME@),
{
    in_chak_fold(current_dir, VERSIONS_DIR_NAME)
}

/// Where root trees are stored.
pub fn get_root_trees_fold_path(current_dir: &str) -> (res: String)
    ensures
        res@ == spec_join_path(chak_fold(current_dir@), ROOT_TREES_DIR_NAME@),
{
    in_chak_fold(current_dir, ROOT_TREES_DIR_NAME)
}

/// Where commits are stored.
pub fn get_commits_fold_path(current_dir: &str) -> (res: String)
    ensures
        res@ == spec_join_path(chak_fold(current_dir@), COMMITS_DIR_NAME@),
{
    in_chak_fold(current_dir, COMMITS_DIR_NAME)
}

/// Where version heads are stored.
pub fn get_version_head_fold_path(current_dir: &str) -> (res: String)
    ensures
        res@ == spec_join_path(chak_fold(current_dir@), VERSION_HEADS_DIR_NAME@),
{
    in_chak_fold(current_dir, VERSION_HEADS_DIR_NAME)
}

/// Where nested trees are stored.
pub fn get_nested_trees_fold_path(current_dir: &str) -> (res: String)
    ensures
        res@ == spec_join_path(chak_fold(current_dir@), NESTED_TREES_DIR_NAME@),
{
    in_chak_fold(current_dir, NESTED_TREES_DIR_NAME)
}

/// The folders a new repository gets, in order.
pub fn essentials_folds_to_create() -> (res: Vec<String>)
    ensures
        res@.len() == 6,
        res@[0]@ == BLOBS_DIR_NAME@,
        res@[1]@ == VERSIONS_DIR_NAME@,
        res@[2]@ == ROOT_TREES_DIR_NAME@,
        res@[3]@ == COMMITS_DIR_NAME@,
        res@[4]@ == NESTED_TREES_DIR_NAME@,
        res@[5]@ == COMMITS_DIR_NAME@,
{
    let mut res = Vec::new();
    res.push(BLOBS_DIR_NAME.to_owned());
    res.push(VERSIONS_DIR_NAME.to_owned());
    res.push(ROOT_TREES_DIR_NAME.to_owned());
    res.push(COMMITS_DIR_NAME.to_owned());
    res.push(NESTED_TREES_DIR_NAME.to_owned());
    res.push(COMMITS_DIR_NAME.to_owned());
    res
}

/// The commit log.
pub fn get_commit_log_file_path(current_dir: &str) -> (res: String)
    ensures
        res@ == spec_join_path(chak_fold(current_dir@), COMMIT_LOG_FILE_NAME@),
{
    in_chak_fold(current_dir, COMMIT_LOG_FILE_NAME)
}

/// The stage file.
pub fn get_stage_file_path(current_dir: &str) -> (res: String)
    ensures
        res@ == spec_join_path(chak_fold(current_dir@), STAGE_FILE_NAME@),
{
    in_chak_fold(current_dir, STAGE_FILE_NAME)
}

/// The repository's settings file.
pub fn get_config_file_path(current_dir: &str) -> (res: String)
    ensures
        res@ == spec_join_path(chak_fold(current_dir@), VCS_CONFIG_NAME@),
{
    in_chak_fold(current_dir, VCS_CONFIG_NAME)
}

/// The files a new repository gets, in order.
pub fn essentials_files_to_create() -> (res: Vec<String>)
    ensures
        res@.len() == 3,
        res@[0]@ == STAGE_FILE_NAME@,
        res@[1]@ == COMMIT_LOG_FILE_NAME@,
        res@[2]@ == VCS_CONFIG_NAME@,
{
    let mut res = Vec::new();
    res.push(STAGE_FILE_NAME.to_owned());
    res.push(COMMIT_LOG_FILE_NAME.to_owned());
    res.push(VCS_CONFIG_NAME.to_owned());
    res
}

/// Settings shared by all repositories of a user.
#[derive(Debug)]
pub struct GlobalConfig {
    pub global_vcs_ignore_file: String,
    pub global_vcs_work_with_nested_ignore_file: bool,
    pub global_vcs_alias: StringMap,
}

impl GlobalConfig {
    /// The default settings: ignore file `.ignore`, no nested ignore files, no aliases.
    pub fn new() -> (res: Self)
        ensures
            res.global_vcs_ignore_file@ == VCS_IGNORE_FILE_NAME@,
            !res.global_vcs_work_with_nested_ignore_file,
            res.global_vcs_alias.map_view() == Map::<Seq<char>, Seq<char>>::empty(),
    {
        GlobalConfig {
            global_vcs_ignore_file: VCS_IGNORE_FILE_NAME.to_owned(),
            global_vcs_work_with_nested_ignore_file: false,
            global_vcs_alias: StringMap::new(),
        }
    }

    /// Makes `alias` the alias of `command`.
    pub fn create_global_vcs_alias(&mut self, command: String, alias: String)
        ensures
            final(self).global_vcs_alias.map_view() == old(self).global_vcs_alias.map_view().insert(
                command@,
                alias@,
            ),
            final(self).global_vcs_ignore_file == old(self).global_vcs_ignore_file,
            final(self).global_vcs_work_with_nested_ignore_file == old(
                self,
            ).global_vcs_work_with_nested_ignore_file,
    {
        self.global_vcs_alias.insert(command, alias);
    }

    /// Drops the alias entry keyed by `no_need_alias`.
    pub fn remove_global_vcs_alias(&mut self, no_need_alias: String)
        ensures
            final(self).global_vcs_alias.map_view() == old(self).global_vcs_alias.map_view().remove(
                no_need_alias@,
            ),
            final(self).global_vcs_ignore_file == old(self).global_vcs_ignore_file,
            final(self).global_vcs_work_with_nested_ignore_file == old(
                self,
            ).global_vcs_work_with_nested_ignore_file,
    {
        self.global_vcs_alias.remove(&no_need_alias);
    }

    /// Sets whether nested ignore files are read.
    pub fn set_global_vcs_work_with_nested_ignore_file(&mut self, value: bool)
        ensures
            final(self).global_vcs_work_with_nested_ignore_file == value,
            final(self).global_vcs_ignore_file == old(self).global_vcs_ignore_file,
            final(self).global_vcs_alias == old(self).global_vcs_alias,
    {
        self.global_vcs_work_with_nested_ignore_file = value;
    }
}

/// The global settings: those read from the global settings file, or the defaults when
/// none could be read (the caller then saves the defaults).
pub fn get_global_config(loaded: Option<GlobalConfig>) -> (res: GlobalConfig)
    ensures
        loaded matches Some(g) ==> res == g,
        loaded is None ==> res.global_vcs_ignore_file@ == VCS_IGNORE_FILE_NAME@
            && !res.global_vcs_work_with_nested_ignore_file
            && res.global_vcs_alias.map_view() == Map::<Seq<char>, Seq<char>>::empty(),
{
    match loaded {
        Some(g) => g,
        None => GlobalConfig::new(),
    }
}

/// Where the global settings file is: the path in the environment variable
/// `CHAK_GLOBAL_CONFIG_ENV` when it is set, else `chakvcs/global_config.toml` in the user's
/// configuration folder, else an error.
pub fn get_global_config_path(env_path: Option<String>, config_dir: Option<String>) -> (res: Result<
    String,
    ChakError,
>)
    ensures
        env_path matches Some(p) ==> res == Ok::<String, ChakError>(p),
        env_path is None && config_dir is Some ==> (res matches Ok(p) && p@ == spec_join_path(
            spec_join_path(config_dir->0@, APPLICATION_NAME@),
            CHAK_GLOBAL_CONFIG@,
        )),
        env_path is None && config_dir is None ==> (res matches Err(e) && (e matches ChakError::EnvVarNotFound(m) && m@
            == "Environment variable not found "@ + CHAK_GLOBAL_CONFIG@)),
{
    if let Some(p) = env_path {
        return Ok(p);
    }
    match config_dir {
        Some(dir) => {
            let app = join_path(dir.as_str(), APPLICATION_NAME);
            Ok(join_path(app.as_str(), CHAK_GLOBAL_CONFIG))
        },
        None => {
            let mut m = "Environment variable not found ".to_owned();
            m.append(CHAK_GLOBAL_CONFIG);
            Err(ChakError::EnvVarNotFound(m))
        },
    }
}

/// The settings of one repository.
#[derive(Debug)]
pub struct Config {
    pub vcs_work_with_nested_ignore_file: bool,
    pub vcs_command_alias: StringMap,
    pub vcs_remotes: StringMap,
}

impl Config {
    /// A repository's settings taken from the global settings, with no remotes.
    pub fn new(global_config: &GlobalConfig) -> (res: Self)
        ensures
            res.vcs_work_with_nested_ignore_file == global_config.global_vcs_work_with_nested_ignore_file,
            res.vcs_command_alias.map_view() == global_config.global_vcs_alias.map_view(),
            res.vcs_remotes.map_view() == Map::<Seq<char>, Seq<char>>::empty(),
    {
        Config {
            vcs_work_with_nested_ignore_file: global_config.global_vcs_work_with_nested_ignore_file,
            vcs_command_alias: global_config.global_vcs_alias.clone_map(),
            vcs_remotes: StringMap::new(),
        }
    }

    /// Records `alias` under the key `remote`.
    pub fn add_remote(&mut self, remote: String, alias: String)
        ensures
            final(self).vcs_remotes.map_view() == old(self).vcs_remotes.map_view().insert(
                remote@,
                alias@,
            ),
            final(self).vcs_command_alias == old(self).vcs_command_alias,
            final(self).vcs_work_with_nested_ignore_file == old(self).vcs_work_with_nested_ignore_file,
    {
        self.vcs_remotes.insert(remote, alias);
    }

    /// Drops the remote entry keyed by `no_need_alias`.
    pub fn remove_remote(&mut self, no_need_alias: String)
        ensures
            final(self).vcs_remotes.map_view() == old(self).vcs_remotes.map_view().remove(
                no_need_alias@,
            ),
            final(self).vcs_command_alias == old(self).vcs_command_alias,
            final(self).vcs_work_with_nested_ignore_file == old(self).vcs_work_with_nested_ignore_file,
    {
        self.vcs_remotes.remove(&no_need_alias);
    }

    /// Makes `alias` the alias of `command`.
    pub fn create_alias(&mut self, command: String, alias: String)
        ensures
            final(self).vcs_command_alias.map_view() == old(self).vcs_command_alias.map_view().insert(
                command@,
                alias@,
            ),
            final(self).vcs_remotes == old(self).vcs_remotes,
            final(self).vcs_work_with_nested_ignore_file == old(self).vcs_work_with_nested_ignore_file,
    {
        self.vcs_command_alias.insert(command, alias);
    }

    /// Drops the alias entry keyed by `no_need_alias`.
    pub fn remove_alias(&mut self, no_need_alias: String)
        ensures
            final(self).vcs_command_alias.map_view() == old(self).vcs_command_alias.map_view().remove(
                no_need_alias@,
            ),
            final(self).vcs_remotes == old(self).vcs_remotes,
            final(self).vcs_work_with_nested_ignore_file == old(self).vcs_work_with_nested_ignore_file,
    {
        self.vcs_command_alias.remove(&no_need_alias);
    }

    /// Sets whether nested ignore files are read.
    pub fn set_work_with_nested_ignore_file(&mut self, value: bool)
        ensures
            final(self).vcs_work_with_nested_ignore_file == value,
            final(self).vcs_command_alias == old(self).vcs_command_alias,
            final(self).vcs_remotes == old(self).vcs_remotes,
    {
        self.vcs_work_with_nested_ignore_file = value;
    }
}

/// The repository's settings: those read from its settings file, or else the settings a
/// new repository gets from the default global settings.
pub fn get_config(loaded: Option<Config>) -> (res: Config)
    ensures
        loaded matches Some(c) ==> res == c,
        loaded is None ==> !res.vcs_work_with_nested_ignore_file
            && res.vcs_command_alias.map_view() == Map::<Seq<char>, Seq<char>>::empty()
            && res.vcs_remotes.map_view() == Map::<Seq<char>, Seq<char>>::empty(),
{
    match loaded {
        Some(c) => c,
        None => Config::new(&GlobalConfig::new()),
    }
}

/// An alias created and then removed is gone, and the other aliases are as before.
pub proof fn law_alias_create_then_remove(
    before: Map<Seq<char>, Seq<char>>,
    command: Seq<char>,
    alias: Seq<char>,
)
    ensures
        before.insert(command, alias).remove(command) == before.remove(command),
{
    assert(before.insert(command, alias).remove(command) =~= before.remove(command));
}

} // verus!
