//! The environment that the workflows need, and where configuration lives.
use vstd::prelude::*;
use vstd::string::*;

verus! {

#[derive(Debug, PartialEq, Eq, Structural)]
pub enum EnvError {
    /// The version-control tool cannot be run.
    ToolMissing,
    /// The working directory is not inside a working tree.
    NotInWorkTree,
}

/// Whether the workflows can run, given whether the version-control tool
/// runs and whether the working directory lies in a working tree.
pub fn env_valid(tool_installed: bool, in_work_tree: bool) -> (r: Result<(), EnvError>)
    ensures
        !tool_installed ==> r == Err::<(), EnvError>(EnvError::ToolMissing),
        tool_installed && !in_work_tree ==> r == Err::<(), EnvError>(EnvError::NotInWorkTree),
        r is Ok <==> tool_installed && in_work_tree,
{
    if !tool_installed {
        return Err(EnvError::ToolMissing);
    }
    if !in_work_tree {
        return Err(EnvError::NotInWorkTree);
    }
    Ok(())
}

/// The configuration files, in the order they are tried: the one at the
/// root of the working tree, then the user's own under `config_dir`.
pub fn get_config_path_list(work_tree_root: &str, config_dir: &str) -> (r: Vec<String>)
    ensures
        r@.len() == 2,
        r@[0]@ == work_tree_root@ + "/.git-flow.toml"@,
        r@[1]@ == config_dir@ + "/git-flow/config.toml"@,
{
    let mut local = String::from_str(work_tree_root);
    local.append("/.git-flow.toml");
    let mut global = String::from_str(config_dir);
    global.append("/git-flow/config.toml");
    let mut r: Vec<String> = Vec::new();
    r.push(local);
    r.push(global);
    r
}

} // verus!
