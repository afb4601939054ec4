//! Where Neovim keeps its files, and what exists on disk.

use vstd::prelude::*;
use crate::text::{ends_with, lemma_ends_with_append, str_concat};

verus! {

/// `path` is `rel` placed below a directory whose name is not empty: the
/// home directory that a leading `~` was expanded to, or `~` itself where
/// no home directory is known.
pub open spec fn below_home(path: Seq<char>, rel: Seq<char>) -> bool {
    rel.len() < path.len() && ends_with(path, rel)
}

/// A path below the home directory is a nonempty directory followed by
/// `rel`, and every such path is below the home directory.
pub proof fn below_home_splits(path: Seq<char>, rel: Seq<char>)
    ensures
        below_home(path, rel) <==> exists|home: Seq<char>| home.len() > 0 && path == home + rel,
{
    if below_home(path, rel) {
        let home = path.take(path.len() - rel.len());
        assert(path =~= home + rel);
    }
    if exists|home: Seq<char>| home.len() > 0 && path == home + rel {
        let home = choose|home: Seq<char>| home.len() > 0 && path == home + rel;
        assert(path.skip(path.len() - rel.len()) =~= rel);
    }
}

/// Appending the same text to a path and to what it ends with keeps it
/// below the home directory.
pub proof fn lemma_below_home_append(path: Seq<char>, rel: Seq<char>, tail: Seq<char>)
    requires
        below_home(path, rel),
    ensures
        below_home(path + tail, rel + tail),
{
    lemma_ends_with_append(path, rel, tail);
}

/// `shellexpand::tilde`: a leading `~` that stands alone or is followed by
/// `/` is replaced by the home directory when it is known; otherwise the
/// input comes back unchanged. The home directory comes from
/// `dirs::home_dir`, which treats an empty `HOME` and an empty home entry
/// of the user as unknown, so it is never empty. The contract states what
/// holds whichever home directory the environment gives: an input without a
/// leading `~` comes back unchanged, and the text after a leading `~` is
/// kept at the end, below a part that is not empty (the home directory, or
/// `~` itself). Which home directory it is, is left unsaid: it comes from
/// the environment.
#[verifier::external_body]
fn expand_tilde(path: &str) -> (res: String)
    ensures
        !(path@.len() > 0 && path@[0] == '~') ==> res@ == path@,
        path@.len() > 0 && path@[0] == '~' ==> below_home(res@, path@.skip(1)),
{
    shellexpand::tilde(path).into_owned()
}

/// `std::path::Path::exists`: whether something exists at `path`. What it
/// returns depends on the disk, so nothing is stated of it.
#[verifier::external_body]
fn path_exists(path: &str) -> bool {
    std::path::Path::new(path).exists()
}

/// Expands a literal that starts with `~/` and appends `tail` to it.
fn expanded_with(home_relative: &str, tail: &str) -> (res: String)
    requires
        home_relative@.len() > 0,
        home_relative@[0] == '~',
    ensures
        below_home(res@, home_relative@.skip(1) + tail@),
{
    let base = expand_tilde(home_relative);
    let res = str_concat(base.as_str(), tail);
    proof {
        lemma_below_home_append(base@, home_relative@.skip(1), tail@);
    }
    res
}

/// Whether a plugin directory and its git metadata exist.
pub struct Exists {
    pub path: bool,
    pub git: bool,
}

impl Exists {
    /// The git metadata directory inside `path`.
    pub fn git_dir(path: &str) -> (res: String)
        ensures
            res@ == path@ + "/.git"@,
    {
        str_concat(path, "/.git")
    }

    /// Looks at `path` and at `path/.git` on disk.
    pub fn new(path: &str) -> (res: Self) {
        let git_dir = Self::git_dir(path);
        Exists { path: path_exists(path), git: path_exists(git_dir.as_str()) }
    }
}

/// Why a directory cannot be found.
#[derive(Debug, PartialEq, Eq, Structural)]
pub enum ManagerError {
    /// An environment variable the directory is found from is not set.
    MissingVariable,
}

/// The Neovim directories of the user.
pub struct Manager;

impl Manager {
    /// Neovim's data directory, `~/.local/share/nvim`: the home directory
    /// followed by `/.local/share/nvim`.
    pub fn data() -> (res: String)
        ensures
            below_home(res@, "/.local/share/nvim"@),
    {
        proof {
            reveal_strlit("~/.local/share");
            reveal_strlit("/nvim");
            reveal_strlit("/.local/share/nvim");
        }
        let res = expanded_with("~/.local/share", "/nvim");
        assert("~/.local/share"@.skip(1) + "/nvim"@ =~= "/.local/share/nvim"@);
        res
    }

    /// Neovim's configuration directory: `$XDG_CONFIG_HOME/nvim` when that
    /// variable is set, else `~/.config/nvim`.
    pub fn config(xdg_config_home: Option<String>) -> (res: String)
        ensures
            match xdg_config_home {
                Some(dir) => res@ == dir@ + "/nvim"@,
                None => below_home(res@, "/.config/nvim"@),
            },
    {
        proof {
            reveal_strlit("~/.config");
            reveal_strlit("/nvim");
            reveal_strlit("/.config/nvim");
        }
        match xdg_config_home {
            Some(dir) => str_concat(dir.as_str(), "/nvim"),
            None => {
                let res = expanded_with("~/.config", "/nvim");
                assert("~/.config"@.skip(1) + "/nvim"@ =~= "/.config/nvim"@);
                res
            },
        }
    }

    /// The plugin manager's cache directory, `~/.cache/pnp`: the home
    /// directory followed by `/.cache/pnp`.
    pub fn cache() -> (res: String)
        ensures
            below_home(res@, "/.cache/pnp"@),
    {
        proof {
            reveal_strlit("~/.cache");
            reveal_strlit("/pnp");
            reveal_strlit("/.cache/pnp");
        }
        let res = expanded_with("~/.cache", "/pnp");
        assert("~/.cache"@.skip(1) + "/pnp"@ =~= "/.cache/pnp"@);
        res
    }

    /// Neovim's data directory on Windows, from `%LOCALAPPDATA%`:
    /// `<localappdata>/nvim-data`.
    pub fn windows_data(localappdata: Option<String>) -> (res: Result<String, ManagerError>)
        ensures
            match localappdata {
                Some(dir) => res matches Ok(r) && r@ == dir@ + "/nvim-data"@,
                None => res == Err::<String, ManagerError>(ManagerError::MissingVariable),
            },
    {
        match localappdata {
            Some(dir) => Ok(str_concat(dir.as_str(), "/nvim-data")),
            None => Err(ManagerError::MissingVariable),
        }
    }

    /// Neovim's configuration directory on Windows: `$XDG_CONFIG_HOME/nvim`
    /// when that variable is set, else `<localappdata>/nvim`.
    pub fn windows_config(
        xdg_config_home: Option<String>,
        localappdata: Option<String>,
    ) -> (res: Result<String, ManagerError>)
        ensures
            match (xdg_config_home, localappdata) {
                (Some(dir), _) => res matches Ok(r) && r@ == dir@ + "/nvim"@,
                (None, Some(local)) => res matches Ok(r) && r@ == local@ + "/nvim"@,
                (None, None) => res == Err::<String, ManagerError>(ManagerError::MissingVariable),
            },
    {
        match xdg_config_home {
            Some(dir) => Ok(str_concat(dir.as_str(), "/nvim")),
            None => match localappdata {
                Some(local) => Ok(str_concat(local.as_str(), "/nvim")),
                None => Err(ManagerError::MissingVariable),
            },
        }
    }

    /// The plugin manager's cache directory on Windows, from `%APPDATA%`:
    /// `<appdata>/pnp`.
    pub fn windows_cache(appdata: Option<String>) -> (res: Result<String, ManagerError>)
        ensures
            match appdata {
                Some(dir) => res matches Ok(r) && r@ == dir@ + "/pnp"@,
                None => res == Err::<String, ManagerError>(ManagerError::MissingVariable),
            },
    {
        match appdata {
            Some(dir) => Ok(str_concat(dir.as_str(), "/pnp")),
            None => Err(ManagerError::MissingVariable),
        }
    }
}

} // verus!
