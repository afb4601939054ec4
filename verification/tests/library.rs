use plugnplay::data::{ConfigError, ConfigStructure, InstallStep, Location, LocationError, PluginValue, PluginVerbose, UpdateStep};
use plugnplay::database::{database_dir, database_path, outdated, remote_update_time, DatabaseError};
use plugnplay::fs::{Exists, Manager, ManagerError};
use plugnplay::git::{append_to_data, append_to_data_in, branch_command, query_answer, GitError, GitQuery, clone_command, commit_hash_command, plugin_dir, plugin_dir_in, update_command};
use plugnplay::handle::{info, init_file, search, search_checked, search_hit, search_with, all_owners_known, InitFile, PluginRecord, SearchError, SearchPatterns};
use plugnplay::lockfile::{BranchPlan, ConfigType, Lock, PlugItem};
use plugnplay::symlink::SymLink;
use plugnplay::text::{chars_of, str_concat, join_strings, replace};

fn text(loc: &Location) -> (char, String) {
    match loc {
        Location::GitHub(s) => ('h', s.clone()),
        Location::Remote(s) => ('r', s.clone()),
        Location::Local(s) => ('l', s.clone()),
    }
}

fn verbose(location: &str) -> PluginVerbose {
    PluginVerbose {
        plugin_location: location.to_string(),
        branch: None,
        commit: None,
        pin: None,
        version: None,
        config: None,
        config_file: None,
    }
}

#[test]
fn location_github() {
    let loc = Location::new("gh:nvim-lua/plenary.nvim".to_string()).unwrap();
    assert_eq!(text(&loc), ('h', "nvim-lua/plenary.nvim".to_string()));
    assert_eq!(loc.to_string(), "nvim-lua/plenary.nvim");
    assert_eq!(loc.url(), Ok("https://github.com/nvim-lua/plenary.nvim".to_string()));
    assert!(loc.is_git());
    assert_eq!(loc.sym_path("plenary".to_string()), None);
}

#[test]
fn location_remote() {
    let loc = Location::new("git:https://example.org/a.git".to_string()).unwrap();
    assert_eq!(text(&loc), ('r', "https://example.org/a.git".to_string()));
    assert_eq!(loc.url(), Ok("https://example.org/a.git".to_string()));
    // Any fourth character separates the kind from the link.
    let odd = Location::new("gitXhttps://x".to_string()).unwrap();
    assert_eq!(text(&odd), ('r', "https://x".to_string()));
}

#[test]
fn location_local() {
    let loc = Location::new("loc:/home/me/plugin".to_string()).unwrap();
    assert_eq!(text(&loc), ('l', "/home/me/plugin".to_string()));
    assert_eq!(loc.url(), Err(LocationError::UnknownLinkFormat));
    assert!(!loc.is_git());
    let target = loc.sym_path("mine".to_string()).unwrap();
    assert!(target.ends_with("/.local/share/nvim/site/pack/pnp/opt/mine"));
}

#[test]
fn location_unknown_kinds() {
    assert!(Location::new("foo:bar".to_string()).is_none());
    assert!(Location::new("GH:x/y".to_string()).is_none());
    assert!(Location::new("abc".to_string()).is_none());
    // Three bytes that are two characters: read, and no kind.
    assert!(Location::new("é1".to_string()).is_none());
}

#[test]
fn location_round_trip_values() {
    for (src, kind, rest) in [("gh:a/b", 'h', "a/b"), ("git:u", 'r', "u"), ("loc:p", 'l', "p")] {
        let loc = Location::new(src.to_string()).unwrap();
        assert_eq!(text(&loc), (kind, rest.to_string()));
    }
}

#[test]
fn manager_directories() {
    let data = Manager::data();
    assert!(data.ends_with("/.local/share/nvim"));
    assert!(!data.starts_with('~'));
    assert_eq!(Manager::config(Some("/etc/xdg".to_string())), "/etc/xdg/nvim");
    assert!(Manager::config(None).ends_with("/.config/nvim"));
    assert!(Manager::cache().ends_with("/.cache/pnp"));
}

#[test]
fn data_paths() {
    let p = append_to_data("/x/y");
    assert!(p.ends_with("/.local/share/nvim/x/y"));
    assert!(plugin_dir("telescope").ends_with("/.local/share/nvim/site/pack/pnp/opt/telescope"));
}

#[test]
fn exists_on_disk() {
    assert_eq!(Exists::git_dir("abc"), "abc/.git");
    let root = Exists::new("/");
    assert!(root.path);
    let missing = Exists::new("/no/such/plugnplay/dir");
    assert!(!missing.path);
    assert!(!missing.git);
}

#[test]
fn install_steps() {
    let gh = Location::new("gh:a/b".to_string()).unwrap();
    let local = Location::new("loc:/src/p".to_string()).unwrap();
    let present = Exists { path: true, git: true };
    let missing = Exists { path: false, git: false };
    let only_git = Exists { path: false, git: true };
    let d = "/home/u/.local/share/nvim";
    assert!(matches!(gh.install_step(d, "b".to_string(), &present), InstallStep::Skip));
    assert!(matches!(local.install_step(d, "p".to_string(), &present), InstallStep::Skip));
    assert!(matches!(gh.install_step(d, "b".to_string(), &only_git), InstallStep::Skip));
    match gh.install_step(d, "b".to_string(), &missing) {
        InstallStep::Clone { url, name } => {
            assert_eq!(url, "https://github.com/a/b");
            assert_eq!(name, "b");
        }
        _ => panic!("expected a clone"),
    }
    match local.install_step(d, "p".to_string(), &missing) {
        InstallStep::Link { path, target } => {
            assert_eq!(path, "/src/p");
            assert_eq!(target, "/home/u/.local/share/nvim/site/pack/pnp/opt/p");
        }
        _ => panic!("expected a link"),
    }
}

#[test]
fn update_steps() {
    let gh = Location::new("gh:a/b".to_string()).unwrap();
    let local = Location::new("loc:/src/p".to_string()).unwrap();
    let present = Exists { path: true, git: true };
    let missing = Exists { path: false, git: false };
    assert!(matches!(local.update_step("p".to_string(), &missing), UpdateStep::Skip));
    match gh.update_step("b".to_string(), &missing) {
        UpdateStep::Clone { url, name } => {
            assert_eq!(url, "https://github.com/a/b");
            assert_eq!(name, "b");
        }
        _ => panic!("expected a clone"),
    }
    match gh.update_step("b".to_string(), &present) {
        UpdateStep::Pull { name } => assert_eq!(name, "b"),
        _ => panic!("expected a pull"),
    }
}

#[test]
fn git_commands() {
    let d = "/d";
    let c = clone_command(d, "https://github.com/a/b", "b");
    assert_eq!(c.program, "git");
    assert_eq!(c.args, vec!["clone", "https://github.com/a/b", "--depth=1", "/d/site/pack/pnp/opt/b"]);
    assert!(c.current_dir.is_none());
    let u = update_command(d, "b");
    assert_eq!(u.args, vec!["pull", "origin", "main"]);
    assert_eq!(u.current_dir.as_deref(), Some("/d/site/pack/pnp/opt/b"));
    assert_eq!(commit_hash_command(d, "b").args, vec!["rev-parse", "HEAD"]);
    assert_eq!(commit_hash_command(d, "b").current_dir.as_deref(), Some("/d/site/pack/pnp/opt/b"));
    assert_eq!(branch_command(d, "b").args, vec!["rev-parse", "--abbrev-ref", "HEAD"]);
    assert_eq!(plugin_dir_in("/x", "p"), "/x/site/pack/pnp/opt/p");
    let local = Location::new("loc:/src/p".to_string()).unwrap();
    assert_eq!(local.sym_path_in("/x", "p".to_string()), Some("/x/site/pack/pnp/opt/p".to_string()));
}

#[test]
fn symlink_command() {
    let mut link = SymLink::new("/src/p".to_string(), "/dst/p".to_string());
    assert!(link.cmd.is_none());
    link.cmd();
    let c = link.cmd.unwrap();
    assert_eq!(c.program, "sh");
    assert_eq!(c.args, vec!["-c", "'ln -sf /src/p /dst/p'"]);
}

#[test]
fn config_comments() {
    let raw = b"{\"a\": 1 /* one */, // two\n\"b\": \"/* kept */\"}";
    let out = ConfigStructure::uncomment(raw).unwrap();
    assert_eq!(out.len(), raw.len());
    let s = String::from_utf8(out).unwrap();
    assert_eq!(s, "{\"a\": 1          ,       \n\"b\": \"/* kept */\"}");
    assert_eq!(ConfigStructure::uncomment(b"{\"a\": /x}"), Err(ConfigError::Comments));
    assert_eq!(ConfigStructure::uncomment(b"\"open"), Err(ConfigError::Comments));
}

#[test]
fn config_lookup() {
    let cfg = ConfigStructure {
        plugnplay: vec![],
        plugins: vec![
            ("a".to_string(), PluginValue::ShortHand("gh:x/a".to_string())),
            ("b".to_string(), PluginValue::Verbose(verbose("loc:/b"))),
        ],
    };
    assert_eq!(cfg.plugin("a").unwrap().location(), "gh:x/a");
    assert_eq!(cfg.plugin("b").unwrap().location(), "loc:/b");
    assert!(cfg.plugin("c").is_none());
}

#[test]
fn plug_items() {
    let short = PlugItem::from_value(PluginValue::ShortHand("gh:x/a".to_string()));
    assert!(short.branch.is_none() && short.commit_hash.is_none() && !short.pin);
    assert!(short.configuration.is_none());
    let mut v = verbose("git:https://h/x");
    v.branch = Some("dev".to_string());
    v.commit = Some("abc".to_string());
    v.pin = Some(true);
    v.config = Some("require('x')".to_string());
    v.config_file = Some("x.cfg".to_string());
    let item = PlugItem::from_value(PluginValue::Verbose(v));
    assert_eq!(item.branch.as_deref(), Some("dev"));
    assert_eq!(item.pinned_commit_hash.as_deref(), Some("abc"));
    assert!(item.pin);
    assert!(matches!(item.configuration, Some(ConfigType::Chunk(ref c)) if c == "require('x')"));
    let mut m = verbose("gh:x/m");
    m.config_file = Some("x.cfg".to_string());
    let module = PlugItem::from_value(PluginValue::Verbose(m));
    assert!(matches!(module.configuration, Some(ConfigType::Module(ref c)) if c == "x.cfg"));
}

#[test]
fn branch_plans() {
    let mut previous = Lock::empty();
    let mut recorded = PlugItem::from_value(PluginValue::ShortHand("gh:x/a".to_string()));
    recorded.branch = Some("main".to_string());
    previous.insert("a".to_string(), recorded);
    previous.insert("nob".to_string(), PlugItem::from_value(PluginValue::ShortHand("gh:x/n".to_string())));

    let fresh = PlugItem::from_value(PluginValue::ShortHand("gh:x/a".to_string()));
    assert!(matches!(fresh.branch_plan("a", Some(&previous)), BranchPlan::Inherit(ref b) if b == "main"));
    assert!(matches!(fresh.branch_plan("nob", Some(&previous)), BranchPlan::Keep));
    assert!(matches!(fresh.branch_plan("new", Some(&previous)), BranchPlan::Query));
    assert!(matches!(fresh.branch_plan("a", None), BranchPlan::Query));

    let mut v = verbose("gh:x/a");
    v.branch = Some("dev".to_string());
    let configured = PlugItem::from_value(PluginValue::Verbose(v));
    assert!(matches!(configured.branch_plan("a", Some(&previous)), BranchPlan::Keep));
    let local = PlugItem::from_value(PluginValue::ShortHand("loc:/p".to_string()));
    assert!(matches!(local.branch_plan("a", None), BranchPlan::Keep));
}

#[test]
fn lock_insert_and_get() {
    let mut lock = Lock::empty();
    assert!(lock.get("a").is_none());
    let first = PlugItem::from_value(PluginValue::ShortHand("gh:x/a".to_string()));
    assert!(lock.insert("a".to_string(), first).is_none());
    let mut second = PlugItem::from_value(PluginValue::ShortHand("gh:x/a2".to_string()));
    second.version = Some("2".to_string());
    let other = PlugItem::from_value(PluginValue::ShortHand("gh:x/b".to_string()));
    assert!(lock.insert("b".to_string(), other).is_none());
    let prev = lock.insert("a".to_string(), second).unwrap();
    assert_eq!(prev.location.to_string(), "x/a");
    assert_eq!(lock.get("a").unwrap().version.as_deref(), Some("2"));
    assert_eq!(lock.get("b").unwrap().location.to_string(), "x/b");
    assert_eq!(lock.items().len(), 2);
}

fn record(name: &str, owner: &str, description: Option<&str>) -> PluginRecord {
    PluginRecord {
        name: name.to_string(),
        owner_login: Some(owner.to_string()),
        description: description.map(|d| d.to_string()),
        clone_url: Some(format!("https://github.com/{owner}/{name}.git")),
        stargazers_count: Some(10),
        forks_count: Some(2),
        updated_at: Some("2022-05-01T10:00:00Z".to_string()),
        topics: Some(vec![Some("lua".to_string()), Some("neovim".to_string())]),
    }
}

#[test]
fn search_plugins() {
    let db = vec![
        record("telescope.nvim", "nvim-telescope", Some("Find, Filter, Preview, Pick")),
        record("plenary.nvim", "nvim-lua", Some("lua functions for nvim")),
        record("nui.nvim", "MunifTanjim", None),
    ];
    let hits = search(false, "", vec!["nvim", "lua"], &db).unwrap();
    let names: Vec<&str> = hits.iter().map(|h| h.name.as_str()).collect();
    assert_eq!(names, vec!["plenary.nvim"]);
    assert_eq!(hits[0].author, "nvim-lua");
    assert_eq!(hits[0].description, "lua functions for nvim");

    let by_name = search(false, "", vec!["nui.nvim"], &db).unwrap();
    assert_eq!(by_name.len(), 1);
    assert_eq!(by_name[0].name, "nui.nvim");
    assert_eq!(by_name[0].description, "No description available");

    let all = search(false, "", vec!["nvim"], &db).unwrap();
    assert_eq!(all.len(), 3);
    let filtered = search(true, "nvim-lua", vec!["nvim"], &db).unwrap();
    assert_eq!(filtered.len(), 1);
    assert_eq!(filtered[0].name, "plenary.nvim");

    assert!(matches!(search(false, "", vec!["("], &db), Err(SearchError::InvalidPattern)));
    assert!(search(false, "", vec![], &vec![]).unwrap().is_empty());
}

#[test]
fn plugin_info() {
    let db = vec![record("telescope.nvim", "nvim-telescope", None), record("plenary.nvim", "nvim-lua", Some("lua"))];
    let p = info("telescope.nvim", &db).unwrap();
    assert_eq!(p.repo, "https://github.com/nvim-telescope/telescope.nvim");
    assert_eq!(p.maintainer, "nvim-telescope");
    assert_eq!(p.description, "No description available");
    assert_eq!(p.topics, "lua, neovim");
    assert_eq!(p.stars, 10);
    assert_eq!(p.forks, 2);
    assert_eq!(p.updated, "2022-05-01 10:00:00");
    assert!(info("missing", &db).is_none());
}

#[test]
fn init_files() {
    assert!(matches!(init_file(true), InitFile::PluginManifest));
    assert_eq!(init_file(true).path(), "./plugin.json");
    assert_eq!(init_file(false).path(), "./cfg.jsonc");
}

#[test]
fn text_operations() {
    assert_eq!(replace("a.git.git", ".git", ""), "a");
    assert_eq!(replace("nothing here", ".git", "X"), "nothing here");
    assert_eq!(replace("aaa", "aa", "b"), "ba");
    assert_eq!(replace("", "x", "y"), "");
    assert_eq!(replace("abc", "", "x"), "abc".replace("", "x"));
    assert_eq!(replace("abc", "", "x"), "xaxbxcx");
    assert_eq!(replace("", "", "x"), "x");
    assert_eq!(join_strings(&vec![], ", "), "");
    assert_eq!(join_strings(&vec!["a".to_string()], ", "), "a");
    assert_eq!(join_strings(&vec!["a".to_string(), "b".to_string(), "c".to_string()], "-"), "a-b-c");
    assert_eq!(str_concat("ab", "cd"), "abcd");
    assert_eq!(chars_of("hé"), vec!['h', 'é']);
}

#[test]
fn database_times_and_paths() {
    assert_eq!(remote_update_time("\"2022-05-01T10:00:00Z\""), Ok(1651399200));
    assert_eq!(remote_update_time("null"), Err(DatabaseError::BadCommitDate));
    assert_eq!(remote_update_time("2022-05-01T10:00:00Z"), Err(DatabaseError::BadCommitDate));
    assert!(outdated(10, 5));
    assert!(!outdated(5, 5));
    assert_eq!(database_dir("/d"), "/d/pnp");
    assert_eq!(database_path("/d"), "/d/pnp/database.json");
}

#[test]
fn windows_directories() {
    assert_eq!(Manager::windows_data(Some("C:/L".to_string())), Ok("C:/L/nvim-data".to_string()));
    assert_eq!(Manager::windows_data(None), Err(ManagerError::MissingVariable));
    assert_eq!(Manager::windows_config(Some("C:/X".to_string()), None), Ok("C:/X/nvim".to_string()));
    assert_eq!(Manager::windows_config(None, Some("C:/L".to_string())), Ok("C:/L/nvim".to_string()));
    assert_eq!(Manager::windows_config(None, None), Err(ManagerError::MissingVariable));
    assert_eq!(Manager::windows_cache(Some("C:/R".to_string())), Ok("C:/R/pnp".to_string()));
    assert_eq!(Manager::windows_cache(None), Err(ManagerError::MissingVariable));
}

#[test]
fn search_hit_decisions() {
    let r = record("nui.nvim", "MunifTanjim", None);
    let me = "MunifTanjim".to_string();
    let other = "someone".to_string();
    let hit = search_hit(&r, "nui.nvim", 0, 0, 2, false, &other).unwrap();
    assert_eq!(hit.author, "MunifTanjim");
    assert_eq!(hit.description, "No description available");
    assert!(search_hit(&r, "x", 2, 0, 2, false, &other).is_some());
    assert!(search_hit(&r, "x", 0, 2, 2, false, &other).is_some());
    assert!(search_hit(&r, "x", 1, 1, 2, false, &other).is_none());
    assert!(search_hit(&r, "nui.nvim", 0, 0, 2, true, &other).is_none());
    assert!(search_hit(&r, "nui.nvim", 0, 0, 2, true, &me).is_some());
    let mut anonymous = record("nui.nvim", "x", None);
    anonymous.owner_login = None;
    assert!(search_hit(&anonymous, "nui.nvim", 2, 2, 2, false, &other).is_none());
}

#[test]
fn author_filter_only_drops_hits() {
    let db = vec![
        record("a.nvim", "x", Some("nvim tool")),
        record("b.nvim", "y", Some("nvim tool")),
        record("c.nvim", "x", None),
    ];
    let all = search(false, "x", vec!["nvim"], &db).unwrap();
    let mine = search(true, "x", vec!["nvim"], &db).unwrap();
    assert_eq!(all.len(), 3);
    assert_eq!(mine.len(), 2);
    for h in &mine {
        assert!(all.iter().any(|a| a.name == h.name && a.author == h.author && a.description == h.description));
    }
}

#[test]
fn location_slices() {
    assert!(Location::slices_valid("gh:x"));
    assert!(Location::slices_valid("git:u"));
    assert!(!Location::slices_valid("git"));
    assert!(!Location::slices_valid("ab"));
    assert!(Location::slices_valid("é1"));
    assert!(Location::slices_valid("aé"));
    assert!(!Location::slices_valid("éé"));
    assert!(!Location::slices_valid("gité"));
    assert!(Location::slices_valid("foo"));
}

#[test]
fn invalid_pattern_before_records() {
    let mut r = record("a.nvim", "x", None);
    r.owner_login = None;
    assert!(matches!(search(false, "", vec!["("], &vec![r]), Err(SearchError::InvalidPattern)));
    assert!(matches!(SearchPatterns::new(&vec!["(", "a"]), Err(SearchError::InvalidPattern)));
}

#[test]
fn search_with_compiled_terms() {
    let db = vec![record("a.nvim", "x", Some("tool")), record("b.lua", "y", None)];
    let terms = SearchPatterns::new(&vec!["nvim"]).unwrap();
    assert_eq!(terms.len(), 1);
    let hits = search_with(&terms, false, "", &db);
    assert_eq!(hits.len(), 1);
    assert_eq!(hits[0].name, "a.nvim");
}

#[test]
fn lock_keeps_names_in_order() {
    let mut lock = Lock::empty();
    for n in ["telescope", "alpha", "nui", "Zed", "alpha", "é", "alp"] {
        lock.insert(n.to_string(), PlugItem::from_value(PluginValue::ShortHand("gh:x/y".to_string())));
    }
    let names: Vec<&str> = lock.items().iter().map(|(n, _)| n.as_str()).collect();
    assert_eq!(names, vec!["Zed", "alp", "alpha", "nui", "telescope", "é"]);
    let mut sorted = names.clone();
    sorted.sort();
    assert_eq!(names, sorted);
}

#[test]
fn git_answers() {
    assert_eq!(query_answer(GitQuery::CommitHash, Some("abc".to_string())), Ok("abc".to_string()));
    assert_eq!(query_answer(GitQuery::CommitHash, None), Err(GitError::NoCommitHash));
    assert_eq!(query_answer(GitQuery::Branch, None), Err(GitError::NoBranch));

    let mut item = PlugItem::from_value(PluginValue::ShortHand("gh:x/a".to_string()));
    assert!(item.asks_git());
    item.record_git_answers("h1".to_string(), BranchPlan::Query, Some("main".to_string()));
    assert_eq!(item.commit_hash.as_deref(), Some("h1"));
    assert_eq!(item.branch.as_deref(), Some("main"));
    item.record_git_answers("h2".to_string(), BranchPlan::Inherit("dev".to_string()), None);
    assert_eq!(item.branch.as_deref(), Some("dev"));
    item.record_git_answers("h3".to_string(), BranchPlan::Keep, None);
    assert_eq!(item.branch.as_deref(), Some("dev"));
    assert_eq!(item.commit_hash.as_deref(), Some("h3"));
    let local = PlugItem::from_value(PluginValue::ShortHand("loc:/p".to_string()));
    assert!(!local.asks_git());
}

#[test]
fn windows_forms() {
    let mut link = SymLink::new("C:/src".to_string(), "C:/dst".to_string());
    link.windows_cmd();
    let c = link.cmd.unwrap();
    assert_eq!(c.program, "cmd");
    assert_eq!(c.args, vec!["/c", "mklink", "/D", "C:/src", "C:/dst"]);
    assert_eq!(append_to_data_in("C:/L/nvim-data", "/site"), "C:/L/nvim-data/site");
}

#[test]
fn search_where_it_can_run() {
    let mut r = record("a.nvim", "x", None);
    let good = vec![record("b.nvim", "y", None)];
    assert_eq!(search_checked(false, "", vec!["nvim"], &good).unwrap().unwrap().len(), 1);
    r.owner_login = None;
    let bad = vec![r];
    assert!(!all_owners_known(&bad));
    assert!(search_checked(false, "", vec!["nvim"], &bad).is_none());
    assert!(matches!(search_checked(false, "", vec!["("], &bad), Some(Err(SearchError::InvalidPattern))));
}
