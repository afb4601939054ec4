//! The queries behind the `search` and `info` commands, over the plugins of
//! the database.

use vstd::prelude::*;
use crate::process::strings_view;
use crate::text::{join, join_strings, replace, replace_all};

verus! {

/// `regex::RegexSet`, carried through opaquely.
#[verifier::external_type_specification]
#[verifier::external_body]
pub struct ExRegexSet(regex::RegexSet);

/// `regex::Error`, carried through opaquely.
#[verifier::external_type_specification]
#[verifier::external_body]
pub struct ExRegexError(regex::Error);

/// The patterns a `regex::RegexSet` was built from, in order.
pub uninterp spec fn regex_set_patterns(set: regex::RegexSet) -> Seq<Seq<char>>;

/// Whether `regex::RegexSet::new` builds a set from these patterns (each is
/// a valid regular expression and the set fits the size limits).
pub uninterp spec fn regex_set_builds(patterns: Seq<Seq<char>>) -> bool;

/// Whether the regular expression `pattern` matches somewhere in `haystack`.
pub uninterp spec fn regex_is_match(pattern: Seq<char>, haystack: Seq<char>) -> bool;

/// The number of patterns that match in `haystack`.
pub open spec fn match_count(patterns: Seq<Seq<char>>, haystack: Seq<char>) -> nat
    decreases patterns.len(),
{
    if patterns.len() == 0 {
        0
    } else {
        match_count(patterns.drop_last(), haystack) + if regex_is_match(patterns.last(), haystack) {
            1nat
        } else {
            0nat
        }
    }
}

/// Every pattern matches in `haystack`.
pub open spec fn all_match(patterns: Seq<Seq<char>>, haystack: Seq<char>) -> bool {
    forall|i: int| 0 <= i < patterns.len() ==> #[trigger] regex_is_match(patterns[i], haystack)
}

proof fn lemma_match_count(patterns: Seq<Seq<char>>, haystack: Seq<char>)
    ensures
        match_count(patterns, haystack) <= patterns.len(),
        match_count(patterns, haystack) == patterns.len() <==> all_match(patterns, haystack),
    decreases patterns.len(),
{
    if patterns.len() > 0 {
        let init = patterns.drop_last();
        lemma_match_count(init, haystack);
        if all_match(patterns, haystack) {
            assert forall|i: int| 0 <= i < init.len() implies #[trigger] regex_is_match(init[i], haystack) by {
                assert(init[i] == patterns[i]);
            }
            assert(regex_is_match(patterns[patterns.len() - 1], haystack));
        }
        if match_count(patterns, haystack) == patterns.len() {
            assert forall|i: int| 0 <= i < patterns.len() implies #[trigger] regex_is_match(patterns[i], haystack) by {
                if i < init.len() {
                    assert(init[i] == patterns[i]);
                    assert(regex_is_match(init[i], haystack));
                }
            }
        }
    }
}

/// The character sequences of a list of string slices.
pub open spec fn strs_view(v: Seq<&str>) -> Seq<Seq<char>> {
    v.map_values(|s: &str| s@)
}

/// `regex::RegexSet::new`: builds a set from the patterns, or fails when one
/// is not a valid regular expression or the set is too big. Whether it
/// builds is named by `regex_set_builds`; a set it builds holds the patterns
/// in the order given; an empty list always builds.
#[verifier::external_body]
fn new_regex_set(patterns: &Vec<&str>) -> (res: Result<regex::RegexSet, regex::Error>)
    ensures
        res is Ok == regex_set_builds(strs_view(patterns@)),
        res matches Ok(set) ==> regex_set_patterns(set) == strs_view(patterns@),
        patterns@.len() == 0 ==> res is Ok,
{
    regex::RegexSet::new(patterns)
}

/// `regex::RegexSet::matches`, counted: the number of patterns of the set
/// that match somewhere in `haystack`.
#[verifier::external_body]
fn count_matches(set: &regex::RegexSet, haystack: &str) -> (res: usize)
    ensures
        res == match_count(regex_set_patterns(*set), haystack@),
        res == regex_set_patterns(*set).len() <==> forall|i: int|
            0 <= i < regex_set_patterns(*set).len() ==> #[trigger] regex_is_match(
                regex_set_patterns(*set)[i],
                haystack@,
            ),
{
    set.matches(haystack).into_iter().count()
}

/// What the database says of one plugin; `None` where its entry lacks a
/// field or holds a value of another type.
pub struct PluginRecord {
    pub name: String,
    pub owner_login: Option<String>,
    pub description: Option<String>,
    pub clone_url: Option<String>,
    pub stargazers_count: Option<u64>,
    pub forks_count: Option<u64>,
    pub updated_at: Option<String>,
    pub topics: Option<Vec<Option<String>>>,
}

/// The description of a plugin, with a stand-in when it has none.
pub open spec fn describe(d: Option<String>) -> Seq<char> {
    match d {
        Some(s) => s@,
        None => "No description available"@,
    }
}

/// A plugin that a search found.
pub struct SearchHit {
    pub author: String,
    pub name: String,
    pub description: String,
}

/// A search hit as character sequences: author, name, description.
pub open spec fn hit_view(h: SearchHit) -> (Seq<char>, Seq<char>, Seq<char>) {
    (h.author@, h.name@, h.description@)
}

/// Why a search fails.
#[derive(Debug, PartialEq, Eq, Structural)]
pub enum SearchError {
    /// A search term is not a valid regular expression.
    InvalidPattern,
}

/// A search selects a plugin when the first term is its name, or every term
/// matches its name, or every term matches its description; and, when
/// filtering by author, its author is the one asked for.
pub open spec fn selects(
    r: PluginRecord,
    filter_by_author: bool,
    author_name: Seq<char>,
    params: Seq<Seq<char>>,
) -> bool {
    &&& (params[0] == r.name@ || all_match(params, r.name@) || all_match(params, describe(r.description)))
    &&& (!filter_by_author || r.owner_login.unwrap()@ == author_name)
}

/// Whether a search picks `record`, given the first search term, how many
/// of the `n_terms` terms match its name and its description, and the
/// author filter: the first term is its name, or every term matches its
/// name, or every term matches its description; and, when filtering, its
/// author is `wanted_author`. A plugin whose record names no author is not
/// picked. A picked plugin is shown with its author and its description (or
/// a stand-in).
pub fn search_hit(
    record: &PluginRecord,
    first_term: &str,
    name_matches: usize,
    description_matches: usize,
    n_terms: usize,
    filter_by_author: bool,
    wanted_author: &String,
) -> (res: Option<SearchHit>)
    ensures
        res is Some <==> record.owner_login is Some && (first_term@ == record.name@ || name_matches
            == n_terms || description_matches == n_terms) && (!filter_by_author
            || record.owner_login.unwrap()@ == wanted_author@),
        res matches Some(h) ==> hit_view(h) == (
            record.owner_login.unwrap()@,
            record.name@,
            describe(record.description),
        ),
{
    let author = match &record.owner_login {
        Some(a) => a,
        None => return None,
    };
    let first = first_term.to_owned();
    let text_matches = first == record.name || name_matches == n_terms || description_matches
        == n_terms;
    let author_ok = *author == *wanted_author || !filter_by_author;
    if text_matches && author_ok {
        let description = match &record.description {
            Some(d) => d.clone(),
            None => "No description available".to_owned(),
        };
        Some(SearchHit { author: author.clone(), name: record.name.clone(), description })
    } else {
        None
    }
}

/// The hits of a search over `db`, in the order of `db`.
pub open spec fn search_hits(
    db: Seq<PluginRecord>,
    filter_by_author: bool,
    author_name: Seq<char>,
    params: Seq<Seq<char>>,
) -> Seq<(Seq<char>, Seq<char>, Seq<char>)>
    decreases db.len(),
{
    if db.len() == 0 {
        seq![]
    } else {
        let r = db.last();
        let prev = search_hits(db.drop_last(), filter_by_author, author_name, params);
        if selects(r, filter_by_author, author_name, params) {
            prev.push((r.owner_login.unwrap()@, r.name@, describe(r.description)))
        } else {
            prev
        }
    }
}

/// The search terms, compiled into one set of regular expressions.
pub struct SearchPatterns {
    set: regex::RegexSet,
    terms: Vec<String>,
}

impl SearchPatterns {
    #[verifier::type_invariant]
    spec fn set_holds_terms(self) -> bool {
        regex_set_patterns(self.set) == strings_view(self.terms@)
    }

    /// The search terms, in order.
    pub closed spec fn terms_view(&self) -> Seq<Seq<char>> {
        strings_view(self.terms@)
    }

    /// Compiles the search terms; fails when one is not a valid regular
    /// expression (or the set is too big).
    pub fn new(params: &Vec<&str>) -> (res: Result<SearchPatterns, SearchError>)
        ensures
            res is Err <==> !regex_set_builds(strs_view(params@)),
            res matches Err(e) ==> e == SearchError::InvalidPattern,
            res matches Ok(p) ==> p.terms_view() == strs_view(params@),
    {
        let set = match new_regex_set(params) {
            Ok(set) => set,
            Err(_) => return Err(SearchError::InvalidPattern),
        };
        let mut terms: Vec<String> = Vec::new();
        let mut i: usize = 0;
        while i < params.len()
            invariant
                i <= params@.len(),
                strings_view(terms@) == strs_view(params@.take(i as int)),
            decreases params@.len() - i,
        {
            let t = params[i].to_owned();
            let ghost before = terms@;
            terms.push(t);
            proof {
                assert(terms@ == before.push(t));
                let now = strings_view(terms@);
                let was = strings_view(before);
                let want = strs_view(params@.take(i + 1));
                let had = strs_view(params@.take(i as int));
                assert(was.len() == had.len());
                assert(now.len() == want.len());
                assert forall|k: int| 0 <= k < now.len() implies #[trigger] now[k] == want[k] by {
                    if k < i {
                        assert(terms@[k] == before[k]);
                        assert(was[k] == had[k]);
                        assert(params@.take(i + 1)[k] == params@.take(i as int)[k]);
                    }
                }
                assert(now =~= want);
            }
            i = i + 1;
        }
        assert(params@.take(i as int) =~= params@);
        Ok(SearchPatterns { set, terms })
    }

    /// The number of search terms.
    pub fn len(&self) -> (res: usize)
        ensures
            res == self.terms_view().len(),
    {
        self.terms.len()
    }
}

/// Searches the database with compiled terms: the plugins that `selects`
/// picks, with their authors and descriptions, in the order of `database`.
pub fn search_with(
    patterns: &SearchPatterns,
    filter_by_author: bool,
    author_name: &str,
    database: &Vec<PluginRecord>,
) -> (res: Vec<SearchHit>)
    requires
        patterns.terms_view().len() == 0 ==> database@.len() == 0,
        forall|i: int| 0 <= i < database@.len() ==> (#[trigger] database@[i]).owner_login is Some,
    ensures
        res@.map_values(|h: SearchHit| hit_view(h)) == search_hits(
            database@,
            filter_by_author,
            author_name@,
            patterns.terms_view(),
        ),
{
    proof {
        use_type_invariant(patterns);
    }
    let ghost pv = patterns.terms_view();
    let wanted_author = author_name.to_owned();
    let mut hits: Vec<SearchHit> = Vec::new();
    let mut i: usize = 0;
    while i < database.len()
        invariant
            i <= database@.len(),
            pv == patterns.terms_view(),
            pv == strings_view(patterns.terms@),
            regex_set_patterns(patterns.set) == pv,
            wanted_author@ == author_name@,
            pv.len() == 0 ==> database@.len() == 0,
            forall|k: int| 0 <= k < database@.len() ==> (#[trigger] database@[k]).owner_login is Some,
            hits@.map_values(|h: SearchHit| hit_view(h)) == search_hits(
                database@.take(i as int),
                filter_by_author,
                author_name@,
                pv,
            ),
        decreases database@.len() - i,
    {
        let record = &database[i];
        let description = match &record.description {
            Some(d) => d.clone(),
            None => "No description available".to_owned(),
        };
        let name_count = count_matches(&patterns.set, record.name.as_str());
        let desc_count = count_matches(&patterns.set, description.as_str());
        proof {
            lemma_match_count(pv, record.name@);
            lemma_match_count(pv, description@);
            assert(patterns.terms@[0]@ == pv[0]);
        }
        let ghost before = hits@;
        let hit = search_hit(
            record,
            patterns.terms[0].as_str(),
            name_count,
            desc_count,
            patterns.terms.len(),
            filter_by_author,
            &wanted_author,
        );
        match hit {
            Some(h) => hits.push(h),
            None => {},
        }
        proof {
            let db = database@.take(i + 1);
            assert(db.drop_last() =~= database@.take(i as int));
            assert(db.last() == database@[i as int]);
            if hit is Some {
                assert(hits@ == before.push(hits@.last()));
                assert(hits@.map_values(|h: SearchHit| hit_view(h)) =~= before.map_values(
                    |h: SearchHit| hit_view(h),
                ).push(hit_view(hits@.last())));
            } else {
                assert(hits@ == before);
            }
        }
        i = i + 1;
    }
    assert(database@.take(i as int) =~= database@);
    hits
}

/// Searches the plugins of the database with regular expressions: fails
/// when a term is not a valid regular expression, before any record is
/// read; else the plugins that `selects` picks, with their authors and
/// descriptions, in the order of `database`.
pub fn search(
    filter_by_author: bool,
    author_name: &str,
    params: Vec<&str>,
    database: &Vec<PluginRecord>,
) -> (res: Result<Vec<SearchHit>, SearchError>)
    requires
        params@.len() == 0 ==> database@.len() == 0,
        regex_set_builds(strs_view(params@)) ==> forall|i: int|
            0 <= i < database@.len() ==> (#[trigger] database@[i]).owner_login is Some,
    ensures
        res is Err <==> !regex_set_builds(strs_view(params@)),
        res matches Err(e) ==> e == SearchError::InvalidPattern,
        res matches Ok(hits) ==> hits@.map_values(|h: SearchHit| hit_view(h)) == search_hits(
            database@,
            filter_by_author,
            author_name@,
            strs_view(params@),
        ),
{
    let patterns = SearchPatterns::new(&params)?;
    Ok(search_with(&patterns, filter_by_author, author_name, database))
}

/// Every record names its author.
pub open spec fn owners_known(db: Seq<PluginRecord>) -> bool {
    forall|i: int| 0 <= i < db.len() ==> (#[trigger] db[i]).owner_login is Some
}

/// Whether every record names its author.
pub fn all_owners_known(database: &Vec<PluginRecord>) -> (res: bool)
    ensures
        res == owners_known(database@),
{
    let mut i: usize = 0;
    while i < database.len()
        invariant
            i <= database@.len(),
            forall|k: int| 0 <= k < i ==> (#[trigger] database@[k]).owner_login is Some,
        decreases database@.len() - i,
    {
        if database[i].owner_login.is_none() {
            return false;
        }
        i = i + 1;
    }
    true
}

/// `search` where it can be run: `None` when the terms build but a record
/// names no author (where `search` would stop); else what `search` returns.
pub fn search_checked(
    filter_by_author: bool,
    author_name: &str,
    params: Vec<&str>,
    database: &Vec<PluginRecord>,
) -> (res: Option<Result<Vec<SearchHit>, SearchError>>)
    requires
        params@.len() == 0 ==> database@.len() == 0,
    ensures
        res is None <==> regex_set_builds(strs_view(params@)) && !owners_known(database@),
        res matches Some(r) ==> (r is Err <==> !regex_set_builds(strs_view(params@))),
        res matches Some(Err(e)) ==> e == SearchError::InvalidPattern,
        res matches Some(Ok(hits)) ==> hits@.map_values(|h: SearchHit| hit_view(h)) == search_hits(
            database@,
            filter_by_author,
            author_name@,
            strs_view(params@),
        ),
{
    let builds = SearchPatterns::new(&params).is_ok();
    if builds && !all_owners_known(database) {
        return None;
    }
    Some(search(filter_by_author, author_name, params, database))
}

/// The file that `init` writes: the manifest of a plugin, or the
/// configuration of the manager.
pub enum InitFile {
    PluginManifest,
    Config,
}

/// `init` writes the plugin manifest when asked for a plugin, else the
/// configuration.
pub fn init_file(toggle: bool) -> (res: InitFile)
    ensures
        toggle <==> res is PluginManifest,
{
    if toggle {
        InitFile::PluginManifest
    } else {
        InitFile::Config
    }
}

impl InitFile {
    /// Where the file is written.
    pub fn path(&self) -> (res: String)
        ensures
            self is PluginManifest ==> res@ == "./plugin.json"@,
            self is Config ==> res@ == "./cfg.jsonc"@,
    {
        match self {
            InitFile::PluginManifest => "./plugin.json".to_owned(),
            InitFile::Config => "./cfg.jsonc".to_owned(),
        }
    }
}

/// What `info` shows of a plugin.
pub struct PluginInfo {
    pub maintainer: String,
    pub repo: String,
    pub description: String,
    pub topics: String,
    pub stars: u64,
    pub forks: u64,
    pub updated: String,
}

/// The record has every field that `info` shows.
pub open spec fn info_complete(r: PluginRecord) -> bool {
    &&& r.clone_url is Some
    &&& r.owner_login is Some
    &&& r.stargazers_count is Some
    &&& r.forks_count is Some
    &&& r.updated_at is Some
    &&& r.topics matches Some(ts) && forall|k: int| 0 <= k < ts@.len() ==> (#[trigger] ts@[k]) is Some
}

/// The topics of a record.
pub open spec fn topic_names(ts: Seq<Option<String>>) -> Seq<Seq<char>> {
    ts.map_values(|t: Option<String>| t.unwrap()@)
}

/// The repository page: the clone link without `.git`.
pub open spec fn repo_page(clone_url: Seq<char>) -> Seq<char> {
    replace_all(clone_url, ".git"@, seq![])
}

/// A timestamp `YYYY-MM-DDTHH:MM:SSZ` shown as `YYYY-MM-DD HH:MM:SS`.
pub open spec fn shown_time(t: Seq<char>) -> Seq<char> {
    replace_all(replace_all(t, "T"@, " "@), "Z"@, seq![])
}

/// `info` shows `p` for the record `r`.
pub open spec fn shows(p: PluginInfo, r: PluginRecord) -> bool {
    &&& p.repo@ == repo_page(r.clone_url.unwrap()@)
    &&& p.maintainer@ == r.owner_login.unwrap()@
    &&& p.description@ == describe(r.description)
    &&& p.stars == r.stargazers_count.unwrap()
    &&& p.forks == r.forks_count.unwrap()
    &&& p.updated@ == shown_time(r.updated_at.unwrap()@)
    &&& p.topics@ == join(topic_names(r.topics.unwrap()@), ", "@)
}

/// The topic names of a complete record.
fn topic_list(ts: &Vec<Option<String>>) -> (res: Vec<String>)
    requires
        forall|k: int| 0 <= k < ts@.len() ==> (#[trigger] ts@[k]) is Some,
    ensures
        res@.map_values(|t: String| t@) == topic_names(ts@),
{
    let mut res: Vec<String> = Vec::new();
    let mut i: usize = 0;
    while i < ts.len()
        invariant
            i <= ts@.len(),
            forall|k: int| 0 <= k < ts@.len() ==> (#[trigger] ts@[k]) is Some,
            res@.map_values(|t: String| t@) == topic_names(ts@.take(i as int)),
        decreases ts@.len() - i,
    {
        let ghost before = res@;
        match &ts[i] {
            Some(t) => {
                let c = t.clone();
                res.push(c);
                assert(res@ == before.push(c));
                assert(c@ == ts@[i as int].unwrap()@);
            },
            None => {
                assert(ts@[i as int] is Some);
            },
        }
        proof {
            let prev = ts@.take(i as int);
            let next = ts@.take(i + 1);
            let mv = res@.map_values(|t: String| t@);
            let bv = before.map_values(|t: String| t@);
            let tn = topic_names(next);
            let tp = topic_names(prev);
            assert(bv.len() == tp.len());
            assert(before.len() == i);
            assert(res@.len() == i + 1);
            assert(mv.len() == tn.len());
            assert forall|k: int| 0 <= k < i + 1 implies #[trigger] mv[k] == tn[k] by {
                if k < i {
                    assert(res@[k] == before[k]);
                    assert(bv[k] == tp[k]);
                    assert(next[k] == prev[k]);
                }
            }
            assert(mv =~= tn);
        }
        i = i + 1;
    }
    assert(ts@.take(i as int) =~= ts@);
    res
}

/// What `info` shows of the plugin `plugin_name`: the first record with that
/// name, if there is one.
pub fn info(plugin_name: &str, database: &Vec<PluginRecord>) -> (res: Option<PluginInfo>)
    requires
        forall|i: int| 0 <= i < database@.len() && (#[trigger] database@[i]).name@ == plugin_name@
            ==> info_complete(database@[i]),
    ensures
        match res {
            Some(p) => exists|i: int|
                0 <= i < database@.len() && (#[trigger] database@[i]).name@ == plugin_name@
                && shows(p, database@[i])
                && forall|j: int| 0 <= j < i ==> (#[trigger] database@[j]).name@ != plugin_name@,
            None => forall|i: int| 0 <= i < database@.len() ==> (#[trigger] database@[i]).name@ != plugin_name@,
        },
{
    let key = plugin_name.to_owned();
    let mut i: usize = 0;
    while i < database.len()
        invariant
            i <= database@.len(),
            key@ == plugin_name@,
            forall|j: int| 0 <= j < i ==> (#[trigger] database@[j]).name@ != plugin_name@,
            forall|j: int| 0 <= j < database@.len() && (#[trigger] database@[j]).name@ == plugin_name@
                ==> info_complete(database@[j]),
        decreases database@.len() - i,
    {
        let r = &database[i];
        if r.name == key {
            proof {
                reveal_strlit(".git");
                reveal_strlit("T");
                reveal_strlit("Z");
            }
            assert(database@[i as int].name@ == plugin_name@);
            assert(info_complete(database@[i as int]));
            let (clone_url, owner, stars, forks, updated, topics) = match (
                &r.clone_url,
                &r.owner_login,
                r.stargazers_count,
                r.forks_count,
                &r.updated_at,
                &r.topics,
            ) {
                (Some(c), Some(o), Some(s), Some(f), Some(u), Some(t)) => (c, o, s, f, u, t),
                _ => {
                    assert(false);
                    return None;
                },
            };
            let repo = replace(clone_url.as_str(), ".git", "");
            let description = match &r.description {
                Some(d) => d.clone(),
                None => "No description available".to_owned(),
            };
            let spaced = replace(updated.as_str(), "T", " ");
            let shown = replace(spaced.as_str(), "Z", "");
            let names = topic_list(topics);
            let joined = join_strings(&names, ", ");
            assert(""@ =~= Seq::<char>::empty()) by {
                reveal_strlit("");
            }
            let p = PluginInfo {
                maintainer: owner.clone(),
                repo,
                description,
                topics: joined,
                stars,
                forks,
                updated: shown,
            };
            return Some(p);
        }
        i = i + 1;
    }
    None
}


/// Every hit of a search is a plugin of the database that the search
/// selects, shown with its author and description.
pub proof fn hits_are_selected(
    db: Seq<PluginRecord>,
    filter_by_author: bool,
    author_name: Seq<char>,
    params: Seq<Seq<char>>,
    k: int,
)
    requires
        0 <= k < search_hits(db, filter_by_author, author_name, params).len(),
    ensures
        exists|i: int|
            0 <= i < db.len() && selects(#[trigger] db[i], filter_by_author, author_name, params)
            && search_hits(db, filter_by_author, author_name, params)[k] == (
                db[i].owner_login.unwrap()@,
                db[i].name@,
                describe(db[i].description),
            ),
    decreases db.len(),
{
    let prev = search_hits(db.drop_last(), filter_by_author, author_name, params);
    if k < prev.len() {
        hits_are_selected(db.drop_last(), filter_by_author, author_name, params, k);
        let i = choose|i: int|
            0 <= i < db.drop_last().len() && selects(#[trigger] db.drop_last()[i], filter_by_author, author_name, params)
            && prev[k] == (
                db.drop_last()[i].owner_login.unwrap()@,
                db.drop_last()[i].name@,
                describe(db.drop_last()[i].description),
            );
        assert(db.drop_last()[i] == db[i]);
    } else {
        assert(selects(db[db.len() - 1], filter_by_author, author_name, params));
    }
}

/// Filtering by author only drops hits: every hit of a filtered search is a
/// hit of the same search without the filter.
pub proof fn author_filter_narrows(
    db: Seq<PluginRecord>,
    author_name: Seq<char>,
    params: Seq<Seq<char>>,
    hit: (Seq<char>, Seq<char>, Seq<char>),
)
    requires
        search_hits(db, true, author_name, params).contains(hit),
    ensures
        search_hits(db, false, author_name, params).contains(hit),
    decreases db.len(),
{
    let filtered = search_hits(db, true, author_name, params);
    let all = search_hits(db, false, author_name, params);
    let prev_f = search_hits(db.drop_last(), true, author_name, params);
    let prev_a = search_hits(db.drop_last(), false, author_name, params);
    let j = choose|j: int| 0 <= j < filtered.len() && filtered[j] == hit;
    if j < prev_f.len() {
        assert(prev_f[j] == hit);
        author_filter_narrows(db.drop_last(), author_name, params, hit);
        let m = choose|m: int| 0 <= m < prev_a.len() && prev_a[m] == hit;
        if selects(db.last(), false, author_name, params) {
            assert(all[m] == hit);
        } else {
            assert(all[m] == hit);
        }
    } else {
        assert(all[all.len() - 1] == hit);
    }
}
} // verus!
