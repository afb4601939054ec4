//! Paths of installed plugins and the git commands run on them.

use vstd::prelude::*;
use crate::fs::{below_home, below_home_splits, lemma_below_home_append, Manager};
use crate::process::ProcessCommand;
use crate::text::str_concat;

verus! {

/// A path under Neovim's data directory: whatever the home directory is, it
/// is that directory followed by `/.local/share/nvim` and `rel`.
pub open spec fn in_data_dir(path: Seq<char>, rel: Seq<char>) -> bool {
    below_home(path, "/.local/share/nvim"@ + rel)
}

/// A path under the data directory is a home directory that is not empty,
/// followed by `/.local/share/nvim` and `rel`; and every such path is one.
pub proof fn data_dir_layout(path: Seq<char>, rel: Seq<char>)
    ensures
        in_data_dir(path, rel) <==> exists|home: Seq<char>|
            home.len() > 0 && path == home + "/.local/share/nvim"@ + rel,
{
    let d = "/.local/share/nvim"@;
    below_home_splits(path, d + rel);
    if in_data_dir(path, rel) {
        let home = choose|home: Seq<char>| home.len() > 0 && path == home + (d + rel);
        assert(path =~= home + d + rel);
    }
    if exists|home: Seq<char>| home.len() > 0 && path == home + d + rel {
        let home = choose|home: Seq<char>| home.len() > 0 && path == home + d + rel;
        assert(path =~= home + (d + rel));
    }
}

/// A path that lies `rel` below the data directory is a data directory (a
/// path under it with nothing after) followed by `rel`: what
/// `append_to_data_in` gives for that directory.
pub proof fn data_dir_then_rel(path: Seq<char>, rel: Seq<char>)
    requires
        in_data_dir(path, rel),
    ensures
        exists|data_dir: Seq<char>| in_data_dir(data_dir, Seq::empty()) && path == data_dir + rel,
{
    let d = "/.local/share/nvim"@;
    data_dir_layout(path, rel);
    let home = choose|home: Seq<char>| home.len() > 0 && path == home + d + rel;
    let data_dir = home + d;
    assert(path == data_dir + rel);
    assert(data_dir =~= home + d + Seq::<char>::empty());
    data_dir_layout(data_dir, Seq::empty());
}

/// Where a plugin lives, relative to the data directory.
pub open spec fn plugin_rel_path(name: Seq<char>) -> Seq<char> {
    "/site/pack/pnp/opt/"@ + name
}

/// Appends `append` to Neovim's data directory.
pub fn append_to_data(append: &str) -> (res: String)
    ensures
        in_data_dir(res@, append@),
{
    let data = Manager::data();
    let res = str_concat(data.as_str(), append);
    proof {
        lemma_below_home_append(data@, "/.local/share/nvim"@, append@);
    }
    res
}

/// Appends `append` to the data directory `data_dir`, wherever that is (on
/// Windows, the one `Manager::windows_data` gives).
pub fn append_to_data_in(data_dir: &str, append: &str) -> (res: String)
    ensures
        res@ == data_dir@ + append@,
{
    str_concat(data_dir, append)
}

/// The path of a plugin relative to the data directory.
pub fn plugin_rel_dir(dir_name: &str) -> (res: String)
    ensures
        res@ == plugin_rel_path(dir_name@),
{
    str_concat("/site/pack/pnp/opt/", dir_name)
}

/// The directory a plugin is installed in, under the data directory
/// `data_dir`.
pub fn plugin_dir_in(data_dir: &str, dir_name: &str) -> (res: String)
    ensures
        res@ == data_dir@ + plugin_rel_path(dir_name@),
{
    let rel = plugin_rel_dir(dir_name);
    append_to_data_in(data_dir, rel.as_str())
}

/// The directory a plugin is installed in, under Neovim's data directory.
pub fn plugin_dir(dir_name: &str) -> (res: String)
    ensures
        in_data_dir(res@, plugin_rel_path(dir_name@)),
{
    let rel = plugin_rel_dir(dir_name);
    append_to_data(rel.as_str())
}

/// `git clone <url> --depth=1 <plugin dir>`, the plugin directory under the
/// data directory `data_dir`.
pub fn clone_command(data_dir: &str, url: &str, dir_name: &str) -> (res: ProcessCommand)
    ensures
        res.program@ == "git"@,
        res.args_view().len() == 4,
        res.args_view()[0] == "clone"@,
        res.args_view()[1] == url@,
        res.args_view()[2] == "--depth=1"@,
        res.args_view()[3] == data_dir@ + plugin_rel_path(dir_name@),
        res.current_dir is None,
{
    let dir = plugin_dir_in(data_dir, dir_name);
    let args = vec!["clone".to_owned(), url.to_owned(), "--depth=1".to_owned(), dir];
    ProcessCommand { program: "git".to_owned(), args, current_dir: None }
}

/// `git pull origin main`, run in the plugin directory under `data_dir`.
pub fn update_command(data_dir: &str, dir_name: &str) -> (res: ProcessCommand)
    ensures
        res.program@ == "git"@,
        res.args_view() == seq!["pull"@, "origin"@, "main"@],
        res.current_dir matches Some(d) && d@ == data_dir@ + plugin_rel_path(dir_name@),
{
    let dir = plugin_dir_in(data_dir, dir_name);
    let args = vec!["pull".to_owned(), "origin".to_owned(), "main".to_owned()];
    let res = ProcessCommand { program: "git".to_owned(), args, current_dir: Some(dir) };
    assert(res.args_view() =~= seq!["pull"@, "origin"@, "main"@]);
    res
}

/// `git rev-parse HEAD`, run in the plugin directory under `data_dir`:
/// prints the commit hash.
pub fn commit_hash_command(data_dir: &str, dir_name: &str) -> (res: ProcessCommand)
    ensures
        res.program@ == "git"@,
        res.args_view() == seq!["rev-parse"@, "HEAD"@],
        res.current_dir matches Some(d) && d@ == data_dir@ + plugin_rel_path(dir_name@),
{
    let dir = plugin_dir_in(data_dir, dir_name);
    let args = vec!["rev-parse".to_owned(), "HEAD".to_owned()];
    let res = ProcessCommand { program: "git".to_owned(), args, current_dir: Some(dir) };
    assert(res.args_view() =~= seq!["rev-parse"@, "HEAD"@]);
    res
}

/// `git rev-parse --abbrev-ref HEAD`, run in the plugin directory under
/// `data_dir`: prints the current branch.
pub fn branch_command(data_dir: &str, dir_name: &str) -> (res: ProcessCommand)
    ensures
        res.program@ == "git"@,
        res.args_view() == seq!["rev-parse"@, "--abbrev-ref"@, "HEAD"@],
        res.current_dir matches Some(d) && d@ == data_dir@ + plugin_rel_path(dir_name@),
{
    let dir = plugin_dir_in(data_dir, dir_name);
    let args = vec!["rev-parse".to_owned(), "--abbrev-ref".to_owned(), "HEAD".to_owned()];
    let res = ProcessCommand { program: "git".to_owned(), args, current_dir: Some(dir) };
    assert(res.args_view() =~= seq!["rev-parse"@, "--abbrev-ref"@, "HEAD"@]);
    res
}


/// What is asked of git about an installed plugin.
pub enum GitQuery {
    /// The commit checked out.
    CommitHash,
    /// The branch checked out.
    Branch,
}

/// Git printed nothing in answer.
#[derive(Debug, PartialEq, Eq, Structural)]
pub enum GitError {
    /// No commit hash could be read.
    NoCommitHash,
    /// No branch could be read.
    NoBranch,
}

/// The answer to a query: the first line git printed; an error when it
/// printed none.
pub fn query_answer(query: GitQuery, first_line: Option<String>) -> (res: Result<String, GitError>)
    ensures
        match first_line {
            Some(line) => res matches Ok(a) && a@ == line@,
            None => res == Err::<String, GitError>(
                if query is CommitHash {
                    GitError::NoCommitHash
                } else {
                    GitError::NoBranch
                },
            ),
        },
{
    match first_line {
        Some(line) => Ok(line),
        None => match query {
            GitQuery::CommitHash => Err(GitError::NoCommitHash),
            GitQuery::Branch => Err(GitError::NoBranch),
        },
    }
}
} // verus!
