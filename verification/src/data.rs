//! The configuration model: plugin locations and plugin entries.

use vstd::prelude::*;
use crate::fs::Exists;
use crate::git::{append_to_data, in_data_dir, plugin_dir_in, plugin_rel_dir, plugin_rel_path};
use crate::text::str_concat;

verus! {

/// The number of bytes that `c` takes in UTF-8.
pub open spec fn utf8_width(c: char) -> nat {
    if (c as u32) < 0x80 {
        1
    } else if (c as u32) < 0x800 {
        2
    } else if (c as u32) < 0x10000 {
        3
    } else {
        4
    }
}

/// The number of bytes that `s` takes in UTF-8.
pub open spec fn utf8_len(s: Seq<char>) -> nat
    decreases s.len(),
{
    if s.len() == 0 {
        0
    } else {
        utf8_len(s.drop_last()) + utf8_width(s.last())
    }
}

/// Byte offset `n` of the UTF-8 encoding of `s` falls between two characters
/// (or at either end), so that a string slice may start or stop there.
pub open spec fn splits_at_byte(s: Seq<char>, n: nat) -> bool {
    exists|k: int| 0 <= k <= s.len() && #[trigger] utf8_len(s.take(k)) == n
}

/// The three characters that select the kind of a location.
pub open spec fn starts_with3(s: Seq<char>, a: char, b: char, c: char) -> bool {
    s.len() >= 3 && s[0] == a && s[1] == b && s[2] == c
}

/// What a location string holds, by kind.
pub enum LocationView {
    GitHub(Seq<char>),
    Remote(Seq<char>),
    Local(Seq<char>),
}

/// Where a plugin comes from.
pub enum Location {
    /// `gh:owner/repo`
    GitHub(String),
    /// `git:<url>`
    Remote(String),
    /// `loc:<path>`
    Local(String),
}

impl View for Location {
    type V = LocationView;

    open spec fn view(&self) -> LocationView {
        match self {
            Location::GitHub(s) => LocationView::GitHub(s@),
            Location::Remote(s) => LocationView::Remote(s@),
            Location::Local(s) => LocationView::Local(s@),
        }
    }
}

/// The location that a location string denotes: `gh:` then the repository,
/// `git` then one separator character and the link, `loc` then one separator
/// character and the path; anything else denotes none.
pub open spec fn parse_location(s: Seq<char>) -> Option<LocationView> {
    if starts_with3(s, 'g', 'h', ':') {
        Some(LocationView::GitHub(s.skip(3)))
    } else if starts_with3(s, 'g', 'i', 't') {
        Some(LocationView::Remote(s.skip(4)))
    } else if starts_with3(s, 'l', 'o', 'c') {
        Some(LocationView::Local(s.skip(4)))
    } else {
        None
    }
}

/// The string slices that reading a location takes are at character
/// boundaries: the first three bytes, and, for `git` and `loc`, everything
/// from the fifth byte on.
pub open spec fn location_slices_valid(s: Seq<char>) -> bool {
    &&& splits_at_byte(s, 3)
    &&& (starts_with3(s, 'g', 'i', 't') || starts_with3(s, 'l', 'o', 'c')) ==> splits_at_byte(s, 4)
}

proof fn lemma_ascii_prefix_len(s: Seq<char>, k: int, m: int)
    requires
        0 <= k <= m <= s.len(),
        forall|i: int| 0 <= i < m ==> (#[trigger] s[i] as u32) < 0x80,
    ensures
        utf8_len(s.take(k)) == k,
    decreases k,
{
    if k > 0 {
        assert(s.take(k).drop_last() =~= s.take(k - 1));
        lemma_ascii_prefix_len(s, k - 1, m);
    }
}

proof fn lemma_fourth_byte_split(s: Seq<char>)
    requires
        s.len() >= 3,
        forall|i: int| 0 <= i < 3 ==> (#[trigger] s[i] as u32) < 0x80,
        splits_at_byte(s, 4),
    ensures
        s.len() >= 4,
{
    let k = choose|k: int| 0 <= k <= s.len() && #[trigger] utf8_len(s.take(k)) == 4;
    if k <= 3 {
        lemma_ascii_prefix_len(s, k, 3);
    }
}

/// The UTF-8 width of a character, in bytes.
fn char_width(c: char) -> (res: usize)
    ensures
        res == utf8_width(c),
{
    let v = c as u32;
    if v < 0x80 {
        1
    } else if v < 0x800 {
        2
    } else if v < 0x10000 {
        3
    } else {
        4
    }
}

proof fn lemma_utf8_len_step(s: Seq<char>, k: int)
    requires
        0 <= k < s.len(),
    ensures
        utf8_len(s.take(k + 1)) == utf8_len(s.take(k)) + utf8_width(s[k]),
        utf8_len(s.take(k + 1)) > utf8_len(s.take(k)),
{
    assert(s.take(k + 1).drop_last() =~= s.take(k));
}

proof fn lemma_utf8_len_monotone(s: Seq<char>, i: int, j: int)
    requires
        0 <= i <= j <= s.len(),
    ensures
        utf8_len(s.take(i)) <= utf8_len(s.take(j)),
        i < j ==> utf8_len(s.take(i)) < utf8_len(s.take(j)),
    decreases j - i,
{
    if i < j {
        lemma_utf8_len_step(s, j - 1);
        lemma_utf8_len_monotone(s, i, j - 1);
    }
}

/// Whether byte offset `n` of the UTF-8 encoding of `s` falls between two
/// characters.
fn splits_at_byte_exec(s: &Vec<char>, n: usize) -> (res: bool)
    requires
        n <= 4,
    ensures
        res == splits_at_byte(s@, n as nat),
{
    let mut k: usize = 0;
    let mut acc: usize = 0;
    assert(s@.take(0) =~= Seq::<char>::empty());
    while k < s.len() && acc < n
        invariant
            k <= s@.len(),
            n <= 4,
            acc <= n + 4,
            acc == utf8_len(s@.take(k as int)),
            forall|j: int| 0 <= j < k ==> #[trigger] utf8_len(s@.take(j)) < n,
        decreases s@.len() - k,
    {
        proof {
            lemma_utf8_len_step(s@, k as int);
        }
        acc = acc + char_width(s[k]);
        k = k + 1;
    }
    proof {
        if acc == n {
            assert(utf8_len(s@.take(k as int)) == n);
        } else {
            assert forall|j: int| 0 <= j <= s@.len() implies #[trigger] utf8_len(s@.take(j)) != n by {
                if j < k {
                } else {
                    lemma_utf8_len_monotone(s@, k as int, j);
                }
            }
        }
    }
    acc == n
}

impl Location {
    /// Whether reading `location` takes only slices at character
    /// boundaries, so that `Location::new` may be called on it.
    pub fn slices_valid(location: &str) -> (res: bool)
        ensures
            res == location_slices_valid(location@),
    {
        let cs = crate::text::chars_of(location);
        let at3 = splits_at_byte_exec(&cs, 3);
        let kind_takes_four = cs.len() >= 3 && ((cs[0] == 'g' && cs[1] == 'i' && cs[2] == 't') || (
        cs[0] == 'l' && cs[1] == 'o' && cs[2] == 'c'));
        if kind_takes_four {
            at3 && splits_at_byte_exec(&cs, 4)
        } else {
            at3
        }
    }
}

impl Location {
    /// Reads a location string: `gh:owner/repo`, `git:<url>` or `loc:<path>`.
    pub fn new(location: String) -> (res: Option<Self>)
        requires
            location_slices_valid(location@),
        ensures
            match res {
                Some(l) => parse_location(location@) == Some(l@),
                None => parse_location(location@) is None,
            },
    {
        let s = location.as_str();
        let n = s.unicode_len();
        if n < 3 {
            return None;
        }
        let c0 = s.get_char(0);
        let c1 = s.get_char(1);
        let c2 = s.get_char(2);
        if c0 == 'g' && c1 == 'h' && c2 == ':' {
            let rest = s.substring_char(3, n).to_owned();
            assert(rest@ =~= location@.skip(3));
            Some(Location::GitHub(rest))
        } else if (c0 == 'g' && c1 == 'i' && c2 == 't') || (c0 == 'l' && c1 == 'o' && c2 == 'c') {
            proof {
                lemma_fourth_byte_split(location@);
            }
            let rest = s.substring_char(4, n).to_owned();
            assert(rest@ =~= location@.skip(4));
            if c0 == 'g' {
                Some(Location::Remote(rest))
            } else {
                Some(Location::Local(rest))
            }
        } else {
            None
        }
    }
}


/// The clone URL of a location: GitHub repositories are cloned from
/// `https://github.com/`, remote links as they are; local paths have none.
pub open spec fn url_of(l: LocationView) -> Option<Seq<char>> {
    match l {
        LocationView::GitHub(repo) => Some("https://github.com/"@ + repo),
        LocationView::Remote(link) => Some(link),
        LocationView::Local(_) => None,
    }
}

/// The text of a location, without its kind.
pub open spec fn location_text(l: LocationView) -> Seq<char> {
    match l {
        LocationView::GitHub(s) => s,
        LocationView::Remote(s) => s,
        LocationView::Local(s) => s,
    }
}

/// A location that git fetches (not a local path).
pub open spec fn is_git_location(l: LocationView) -> bool {
    !(l is Local)
}

/// Why a location cannot be fetched.
#[derive(Debug, PartialEq, Eq, Structural)]
pub enum LocationError {
    /// A local path has no link to clone from.
    UnknownLinkFormat,
}

/// What installing a plugin has to do.
pub enum InstallStep {
    /// Nothing: the plugin is present.
    Skip,
    /// Link the local directory `path` to `target`.
    Link { path: String, target: String },
    /// Clone `url` into the directory of the plugin `name`.
    Clone { url: String, name: String },
}

/// What updating a plugin has to do.
pub enum UpdateStep {
    /// Nothing: local plugins are not updated.
    Skip,
    /// The plugin is missing: clone `url` into the directory of `name`.
    Clone { url: String, name: String },
    /// Pull the plugin `name` in its directory.
    Pull { name: String },
}

impl Location {
    /// Whether git fetches this location.
    pub fn is_git(&self) -> (res: bool)
        ensures
            res == is_git_location(self@),
    {
        match self {
            Location::Local(_) => false,
            _ => true,
        }
    }

    /// The link that git clones this location from.
    pub fn url(&self) -> (res: Result<String, LocationError>)
        ensures
            match url_of(self@) {
                Some(u) => res matches Ok(s) && s@ == u,
                None => res == Err::<String, LocationError>(LocationError::UnknownLinkFormat),
            },
    {
        match self {
            Location::GitHub(repo) => Ok(str_concat("https://github.com/", repo.as_str())),
            Location::Remote(link) => Ok(link.clone()),
            Location::Local(_) => Err(LocationError::UnknownLinkFormat),
        }
    }

    /// Where a local plugin is linked to: its directory under the data
    /// directory `data_dir`. Only local locations have one.
    pub fn sym_path_in(&self, data_dir: &str, name: String) -> (res: Option<String>)
        ensures
            self@ is Local <==> res is Some,
            res matches Some(t) ==> t@ == data_dir@ + plugin_rel_path(name@),
    {
        match self {
            Location::Local(_) => Some(plugin_dir_in(data_dir, name.as_str())),
            _ => None,
        }
    }

    /// Where a local plugin is linked to: its directory under Neovim's data
    /// directory. Only local locations have one.
    pub fn sym_path(&self, name: String) -> (res: Option<String>)
        ensures
            self@ is Local <==> res is Some,
            res matches Some(t) ==> in_data_dir(t@, plugin_rel_path(name@)),
    {
        match self {
            Location::Local(_) => {
                let rel = plugin_rel_dir(name.as_str());
                Some(append_to_data(rel.as_str()))
            },
            _ => None,
        }
    }

    /// The text of the location, without its kind.
    pub fn to_string(&self) -> (res: String)
        ensures
            res@ == location_text(self@),
    {
        match self {
            Location::GitHub(data) => data.clone(),
            Location::Remote(data) => data.clone(),
            Location::Local(data) => data.clone(),
        }
    }

    /// Decides what installing the plugin `name` from this location does,
    /// given the data directory and what exists of the plugin's directory:
    /// nothing when the directory is there; for a local path, a link from the
    /// path to the plugin directory; else nothing when git metadata is there,
    /// and a clone otherwise.
    pub fn install_step(&self, data_dir: &str, name: String, exists: &Exists) -> (res: InstallStep)
        ensures
            exists.path ==> res is Skip,
            !exists.path && self@ is Local ==> (res matches InstallStep::Link { path, target }
                && path@ == location_text(self@)
                && target@ == data_dir@ + plugin_rel_path(name@)),
            !exists.path && !(self@ is Local) && exists.git ==> res is Skip,
            !exists.path && !(self@ is Local) && !exists.git ==> (res matches InstallStep::Clone { url, name: n }
                && Some(url@) == url_of(self@) && n@ == name@),
    {
        if exists.path {
            InstallStep::Skip
        } else {
            match self {
                Location::Local(path) => {
                    let target = self.sym_path_in(data_dir, name);
                    match target {
                        Some(target) => InstallStep::Link { path: path.clone(), target },
                        None => InstallStep::Skip,
                    }
                },
                _ => {
                    let url = self.url();
                    match url {
                        Ok(url) => {
                            if exists.git {
                                InstallStep::Skip
                            } else {
                                InstallStep::Clone { url, name }
                            }
                        },
                        Err(_) => InstallStep::Skip,
                    }
                },
            }
        }
    }

    /// Decides what updating the plugin `name` from this location does:
    /// nothing for a local path; a clone when the directory is missing; a
    /// pull otherwise. A directory without git metadata is not handled.
    pub fn update_step(&self, name: String, exists: &Exists) -> (res: UpdateStep)
        requires
            !(self@ is Local) && exists.path ==> exists.git,
        ensures
            self@ is Local ==> res is Skip,
            !(self@ is Local) && !exists.path ==> (res matches UpdateStep::Clone { url, name: n }
                && Some(url@) == url_of(self@) && n@ == name@),
            !(self@ is Local) && exists.path ==> (res matches UpdateStep::Pull { name: n } && n@ == name@),
    {
        match self {
            Location::Local(_) => UpdateStep::Skip,
            _ => {
                let url = self.url();
                match url {
                    Ok(url) => {
                        if !exists.path {
                            UpdateStep::Clone { url, name }
                        } else {
                            UpdateStep::Pull { name }
                        }
                    },
                    Err(_) => UpdateStep::Skip,
                }
            },
        }
    }
}

/// The long form of a plugin entry.
pub struct PluginVerbose {
    pub plugin_location: String,
    pub branch: Option<String>,
    pub commit: Option<String>,
    pub pin: Option<bool>,
    pub version: Option<String>,
    pub config: Option<String>,
    pub config_file: Option<String>,
}

/// A plugin entry: a location string, or a table with one.
pub enum PluginValue {
    ShortHand(String),
    Verbose(PluginVerbose),
}

/// The location string of a plugin entry.
pub open spec fn value_location(v: PluginValue) -> Seq<char> {
    match v {
        PluginValue::ShortHand(loc) => loc@,
        PluginValue::Verbose(verbose) => verbose.plugin_location@,
    }
}

impl PluginValue {
    /// The location string of this entry.
    pub fn location(&self) -> (res: &String)
        ensures
            res@ == value_location(*self),
    {
        match self {
            PluginValue::ShortHand(loc) => loc,
            PluginValue::Verbose(verbose) => &verbose.plugin_location,
        }
    }
}

/// Why the configuration cannot be read.
#[derive(Debug, PartialEq, Eq, Structural)]
pub enum ConfigError {
    /// An unterminated string or comment, or a `/` that starts no comment.
    Comments,
}

/// `json_comments::StripComments` read to the end: the text with every
/// comment turned into spaces, or nothing when a string or comment is left
/// open or a `/` starts no comment.
pub uninterp spec fn json_comments_stripped(input: Seq<u8>) -> Option<Seq<u8>>;

/// Reads `json_comments::StripComments` over `input` to its end. The result
/// is named by `json_comments_stripped`; the source shows it keeps the length
/// and changes bytes only into spaces.
#[verifier::external_body]
fn strip_json_comments(input: &[u8]) -> (res: Option<Vec<u8>>)
    ensures
        match res {
            Some(v) => json_comments_stripped(input@) == Some(v@),
            None => json_comments_stripped(input@) is None,
        },
        res matches Some(v) ==> v@.len() == input@.len()
            && forall|i: int| 0 <= i < input@.len() ==> v@[i] == input@[i] || v@[i] == 32u8,
{
    let mut out = Vec::new();
    match std::io::Read::read_to_end(&mut json_comments::StripComments::new(input), &mut out) {
        Ok(_) => Some(out),
        Err(_) => None,
    }
}

/// The configuration file: the manager's own settings and the plugins, each
/// table as its key-value pairs. A table read from the file names each key
/// once; `plugin` looks a name up by its first entry either way.
pub struct ConfigStructure {
    pub plugnplay: Vec<(String, String)>,
    pub plugins: Vec<(String, PluginValue)>,
}

impl ConfigStructure {
    /// The configuration text with its comments blanked out, ready for a
    /// JSON parser.
    pub fn uncomment(raw: &[u8]) -> (res: Result<Vec<u8>, ConfigError>)
        ensures
            match json_comments_stripped(raw@) {
                Some(s) => res matches Ok(v) && v@ == s,
                None => res == Err::<Vec<u8>, ConfigError>(ConfigError::Comments),
            },
    {
        match strip_json_comments(raw) {
            Some(v) => Ok(v),
            None => Err(ConfigError::Comments),
        }
    }

    /// The entry of the plugin `name`: the first one with that name.
    pub fn plugin(&self, name: &str) -> (res: Option<&PluginValue>)
        ensures
            match res {
                Some(v) => exists|i: int|
                    0 <= i < self.plugins@.len() && self.plugins@[i].0@ == name@
                    && *v == self.plugins@[i].1
                    && forall|j: int| 0 <= j < i ==> self.plugins@[j].0@ != name@,
                None => forall|i: int| 0 <= i < self.plugins@.len() ==> self.plugins@[i].0@ != name@,
            },
    {
        let key = name.to_owned();
        let mut i: usize = 0;
        while i < self.plugins.len()
            invariant
                0 <= i <= self.plugins@.len(),
                key@ == name@,
                forall|j: int| 0 <= j < i ==> self.plugins@[j].0@ != name@,
            decreases self.plugins@.len() - i,
        {
            if self.plugins[i].0 == key {
                return Some(&self.plugins[i].1);
            }
            i = i + 1;
        }
        None
    }
}

/// A location written with its kind: `gh:`, `git:` or `loc:` before its text.
pub open spec fn location_source(l: LocationView) -> Seq<char> {
    match l {
        LocationView::GitHub(s) => "gh:"@ + s,
        LocationView::Remote(s) => "git:"@ + s,
        LocationView::Local(s) => "loc:"@ + s,
    }
}

/// Reading a location written with its kind gives it back, and reading it
/// takes no slice that splits a character.
pub proof fn location_round_trip(l: LocationView)
    ensures
        location_slices_valid(location_source(l)),
        parse_location(location_source(l)) == Some(l),
{
    reveal_strlit("gh:");
    reveal_strlit("git:");
    reveal_strlit("loc:");
    let src = location_source(l);
    let text = location_text(l);
    let n: int = match l {
        LocationView::GitHub(_) => 3,
        _ => 4,
    };
    assert(src.skip(n) =~= text);
    assert forall|i: int| 0 <= i < n implies (#[trigger] src[i] as u32) < 0x80 by {}
    lemma_ascii_prefix_len(src, 3, n);
    assert(utf8_len(src.take(3)) == 3);
    if n == 4 {
        lemma_ascii_prefix_len(src, 4, 4);
        assert(utf8_len(src.take(4)) == 4);
    }
}

/// Git fetches a location exactly when it has a link to clone from; only a
/// local location has a place to be linked to instead.
pub proof fn fetch_or_link(l: LocationView)
    ensures
        is_git_location(l) <==> url_of(l) is Some,
        url_of(l) is None <==> l is Local,
{
}
} // verus!
