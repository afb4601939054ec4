//! Linking a local plugin into Neovim's package directory.

use vstd::prelude::*;
use crate::process::ProcessCommand;
use crate::text::str_concat;

verus! {

/// The shell line that links `path` to `target`, in single quotes.
pub open spec fn link_line(path: Seq<char>, target: Seq<char>) -> Seq<char> {
    "'ln -sf "@ + path + " "@ + target + "'"@
}

/// A link to make from `path` to `target`, and the command that makes it
/// once it is prepared.
pub struct SymLink {
    pub path: String,
    pub target: String,
    pub cmd: Option<ProcessCommand>,
}

impl SymLink {
    /// A link from `path` to `target`, with no command prepared.
    pub fn new(path: String, target: String) -> (res: Self)
        ensures
            res.path@ == path@,
            res.target@ == target@,
            res.cmd is None,
    {
        SymLink { path, target, cmd: None }
    }

    /// Prepares the command: `sh -c 'ln -sf <path> <target>'`.
    pub fn cmd(&mut self)
        ensures
            final(self).path == old(self).path,
            final(self).target == old(self).target,
            final(self).cmd matches Some(c) && c.program@ == "sh"@ && c.current_dir is None
                && c.args_view() == seq!["-c"@, link_line(old(self).path@, old(self).target@)],
    {
        let line = str_concat("'ln -sf ", self.path.as_str());
        let line = str_concat(line.as_str(), " ");
        let line = str_concat(line.as_str(), self.target.as_str());
        let line = str_concat(line.as_str(), "'");
        let args = vec!["-c".to_owned(), line];
        let c = ProcessCommand { program: "sh".to_owned(), args, current_dir: None };
        assert(c.args_view() =~= seq!["-c"@, link_line(self.path@, self.target@)]);
        self.cmd = Some(c);
    }

    /// Prepares the command on Windows: `cmd /c mklink /D <path> <target>`.
    pub fn windows_cmd(&mut self)
        ensures
            final(self).path == old(self).path,
            final(self).target == old(self).target,
            final(self).cmd matches Some(c) && c.program@ == "cmd"@ && c.current_dir is None
                && c.args_view() == seq!["/c"@, "mklink"@, "/D"@, old(self).path@, old(self).target@],
    {
        let args = vec![
            "/c".to_owned(),
            "mklink".to_owned(),
            "/D".to_owned(),
            self.path.clone(),
            self.target.clone(),
        ];
        let c = ProcessCommand { program: "cmd".to_owned(), args, current_dir: None };
        assert(c.args_view() =~= seq!["/c"@, "mklink"@, "/D"@, self.path@, self.target@]);
        self.cmd = Some(c);
    }
}

} // verus!
