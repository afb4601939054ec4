//! The lock file: for each plugin, where it comes from and what it is
//! pinned to.

use vstd::prelude::*;
use crate::text::{
    lemma_str_less_irreflexive, lemma_str_less_total, lemma_str_less_transitive, str_less,
    str_less_exec,
};
use crate::data::{
    is_git_location, location_slices_valid, parse_location, value_location, Location, PluginValue,
};

verus! {

/// The configuration of a plugin: Lua code, or the module that holds it.
pub enum ConfigType {
    Chunk(String),
    Module(String),
}

/// What the lock file records of one plugin.
pub struct PlugItem {
    pub location: Location,
    pub branch: Option<String>,
    pub commit_hash: Option<String>,
    pub pinned_commit_hash: Option<String>,
    pub pin: bool,
    pub version: Option<String>,
    pub configuration: Option<ConfigType>,
}

/// The configuration that an entry asks for: its Lua chunk when it has one,
/// else its configuration module.
pub open spec fn configuration_of(config: Option<String>, config_file: Option<String>) -> Option<ConfigType> {
    match config {
        Some(chunk) => Some(ConfigType::Chunk(chunk)),
        None => match config_file {
            Some(module) => Some(ConfigType::Module(module)),
            None => None,
        },
    }
}

/// How the branch of a git plugin is found.
pub enum BranchPlan {
    /// The item keeps the branch it has.
    Keep,
    /// The branch recorded in the previous lock file.
    Inherit(String),
    /// Ask git for the checked-out branch.
    Query,
}

impl PlugItem {
    /// The item for a configuration entry, before git is asked anything: the
    /// location and the settings the entry gives; no commit hash yet. A
    /// short entry gives only the location.
    pub fn from_value(value: PluginValue) -> (res: PlugItem)
        requires
            location_slices_valid(value_location(value)),
            parse_location(value_location(value)) is Some,
        ensures
            Some(res.location@) == parse_location(value_location(value)),
            res.commit_hash is None,
            match value {
                PluginValue::ShortHand(_) => {
                    &&& res.branch is None
                    &&& res.pinned_commit_hash is None
                    &&& !res.pin
                    &&& res.version is None
                    &&& res.configuration is None
                },
                PluginValue::Verbose(v) => {
                    &&& res.branch == v.branch
                    &&& res.pinned_commit_hash == v.commit
                    &&& res.pin == (v.pin == Some(true))
                    &&& res.version == v.version
                    &&& res.configuration == configuration_of(v.config, v.config_file)
                },
            },
    {
        match value {
            PluginValue::ShortHand(loc_string) => {
                let location = Location::new(loc_string).unwrap();
                PlugItem {
                    location,
                    branch: None,
                    commit_hash: None,
                    pinned_commit_hash: None,
                    pin: false,
                    version: None,
                    configuration: None,
                }
            },
            PluginValue::Verbose(verbose) => {
                let pin = match verbose.pin {
                    Some(p) => p,
                    None => false,
                };
                let configuration = match verbose.config {
                    Some(chunk) => Some(ConfigType::Chunk(chunk)),
                    None => match verbose.config_file {
                        Some(module) => Some(ConfigType::Module(module)),
                        None => None,
                    },
                };
                let location = Location::new(verbose.plugin_location).unwrap();
                PlugItem {
                    location,
                    branch: verbose.branch,
                    commit_hash: None,
                    pinned_commit_hash: verbose.commit,
                    pin,
                    version: verbose.version,
                    configuration,
                }
            },
        }
    }

    /// Whether git is asked about this item: only for git locations.
    pub fn asks_git(&self) -> (res: bool)
        ensures
            res == is_git_location(self.location@),
    {
        self.location.is_git()
    }

    /// Records what git answered: the commit hash, and the branch as the plan
    /// says (kept, inherited from the previous lock file, or the one git
    /// reported). The other fields stay.
    pub fn record_git_answers(&mut self, commit_hash: String, plan: BranchPlan, queried_branch: Option<String>)
        requires
            plan is Query ==> queried_branch is Some,
        ensures
            final(self).commit_hash == Some(commit_hash),
            final(self).location == old(self).location,
            final(self).pinned_commit_hash == old(self).pinned_commit_hash,
            final(self).pin == old(self).pin,
            final(self).version == old(self).version,
            final(self).configuration == old(self).configuration,
            match plan {
                BranchPlan::Keep => final(self).branch == old(self).branch,
                BranchPlan::Inherit(b) => final(self).branch == Some(b),
                BranchPlan::Query => final(self).branch == queried_branch,
            },
    {
        self.commit_hash = Some(commit_hash);
        match plan {
            BranchPlan::Keep => {},
            BranchPlan::Inherit(b) => {
                self.branch = Some(b);
            },
            BranchPlan::Query => {
                self.branch = queried_branch;
            },
        }
    }

    /// How the branch of this item is found. Only git plugins have one. A
    /// branch that the configuration gives is kept. Otherwise, when a previous
    /// lock file was read: the branch it recorded for `name`, if any, else the
    /// item keeps none when the plugin was recorded without a branch, and
    /// git is asked when the plugin was not recorded. Without a previous
    /// lock file git is asked.
    pub fn branch_plan(&self, name: &str, previous: Option<&Lock>) -> (res: BranchPlan)
        ensures
            !is_git_location(self.location@) || self.branch is Some ==> res is Keep,
            is_git_location(self.location@) && self.branch is None ==> match previous {
                None => res is Query,
                Some(lock) => if lock@.contains_key(name@) {
                    match lock@[name@].branch {
                        Some(b) => res matches BranchPlan::Inherit(c) && c@ == b@,
                        None => res is Keep,
                    }
                } else {
                    res is Query
                },
            },
    {
        if !self.location.is_git() {
            return BranchPlan::Keep;
        }
        match &self.branch {
            Some(_) => BranchPlan::Keep,
            None => match previous {
                None => BranchPlan::Query,
                Some(lock) => match lock.get(name) {
                    Some(item) => match &item.branch {
                        Some(b) => BranchPlan::Inherit(b.clone()),
                        None => BranchPlan::Keep,
                    },
                    None => BranchPlan::Query,
                },
            },
        }
    }
}

/// The lock file: plugin names, each once and in the order of strings,
/// with their items.
pub struct Lock {
    entries: Vec<(String, PlugItem)>,
}

/// No name occurs twice.
pub open spec fn unique_names(s: Seq<(String, PlugItem)>) -> bool {
    forall|i: int, j: int|
        0 <= i < s.len() && 0 <= j < s.len() && i != j ==> #[trigger] s[i].0@ != #[trigger] s[j].0@
}

/// The names come in strictly increasing order.
pub open spec fn sorted_names(s: Seq<(String, PlugItem)>) -> bool {
    forall|i: int, j: int| 0 <= i < j < s.len() ==> str_less(#[trigger] s[i].0@, #[trigger] s[j].0@)
}

/// Some entry has the name `k`.
pub open spec fn has_name(s: Seq<(String, PlugItem)>, k: Seq<char>) -> bool {
    exists|i: int| 0 <= i < s.len() && #[trigger] s[i].0@ == k
}

/// The map from names to items.
pub open spec fn entries_map(s: Seq<(String, PlugItem)>) -> Map<Seq<char>, PlugItem> {
    Map::new(
        |k: Seq<char>| has_name(s, k),
        |k: Seq<char>| s[choose|i: int| 0 <= i < s.len() && #[trigger] s[i].0@ == k].1,
    )
}

proof fn lemma_sorted_unique(s: Seq<(String, PlugItem)>)
    requires
        sorted_names(s),
    ensures
        unique_names(s),
{
    assert forall|i: int, j: int| 0 <= i < s.len() && 0 <= j < s.len() && i != j implies
        #[trigger] s[i].0@ != #[trigger] s[j].0@ by {
        lemma_str_less_irreflexive(s[i].0@);
        if i < j {
            assert(str_less(s[i].0@, s[j].0@));
        } else {
            assert(str_less(s[j].0@, s[i].0@));
        }
    }
}

proof fn lemma_entry_in_map(s: Seq<(String, PlugItem)>, i: int)
    requires
        unique_names(s),
        0 <= i < s.len(),
    ensures
        entries_map(s).contains_key(s[i].0@),
        entries_map(s)[s[i].0@] == s[i].1,
{
    let k = s[i].0@;
    assert(has_name(s, k));
    let c = choose|c: int| 0 <= c < s.len() && #[trigger] s[c].0@ == k;
    assert(c == i);
}

/// Taking out an entry takes its name out of the map.
proof fn lemma_map_remove(s: Seq<(String, PlugItem)>, i: int)
    requires
        unique_names(s),
        0 <= i < s.len(),
    ensures
        unique_names(s.remove(i)),
        !has_name(s.remove(i), s[i].0@),
        entries_map(s.remove(i)) == entries_map(s).remove(s[i].0@),
{
    let r = s.remove(i);
    let key = s[i].0@;
    assert forall|a: int| 0 <= a < r.len() implies r[a] == s[if a < i { a } else { a + 1 }] by {}
    assert forall|a: int, b: int| 0 <= a < r.len() && 0 <= b < r.len() && a != b implies
        #[trigger] r[a].0@ != #[trigger] r[b].0@ by {
        let a2 = if a < i { a } else { a + 1 };
        let b2 = if b < i { b } else { b + 1 };
        assert(r[a] == s[a2]);
        assert(r[b] == s[b2]);
    }
    assert forall|a: int| 0 <= a < r.len() implies #[trigger] r[a].0@ != key by {
        let a2 = if a < i { a } else { a + 1 };
        assert(r[a] == s[a2]);
    }
    let m_old = entries_map(s);
    let m_new = entries_map(r);
    assert forall|k: Seq<char>| k != key implies (#[trigger] m_new.contains_key(k) == m_old.contains_key(k))
        && (m_new.contains_key(k) ==> m_new[k] == m_old[k]) by {
        if m_old.contains_key(k) {
            let j = choose|j: int| 0 <= j < s.len() && #[trigger] s[j].0@ == k;
            lemma_entry_in_map(s, j);
            assert(j != i);
            let j2 = if j < i { j } else { j - 1 };
            assert(r[j2] == s[j]);
            lemma_entry_in_map(r, j2);
        }
        if m_new.contains_key(k) {
            let j = choose|j: int| 0 <= j < r.len() && #[trigger] r[j].0@ == k;
            let j0 = if j < i { j } else { j + 1 };
            assert(r[j] == s[j0]);
            assert(has_name(s, k));
        }
    }
    assert(m_new =~= m_old.remove(key));
}

/// Putting in an entry with a new name adds it to the map.
proof fn lemma_map_insert_at(s: Seq<(String, PlugItem)>, p: int, e: (String, PlugItem))
    requires
        unique_names(s),
        !has_name(s, e.0@),
        0 <= p <= s.len(),
    ensures
        unique_names(s.insert(p, e)),
        entries_map(s.insert(p, e)) == entries_map(s).insert(e.0@, e.1),
{
    let r = s.insert(p, e);
    let key = e.0@;
    assert(r[p] == e);
    assert forall|a: int| 0 <= a < s.len() implies s[a] == r[if a < p { a } else { a + 1 }] by {}
    assert forall|a: int, b: int| 0 <= a < r.len() && 0 <= b < r.len() && a != b implies
        #[trigger] r[a].0@ != #[trigger] r[b].0@ by {
        if a != p && b != p {
            let a2 = if a < p { a } else { a - 1 };
            let b2 = if b < p { b } else { b - 1 };
            assert(r[a] == s[a2]);
            assert(r[b] == s[b2]);
        } else if a == p {
            let b2 = if b < p { b } else { b - 1 };
            assert(r[b] == s[b2]);
        } else {
            let a2 = if a < p { a } else { a - 1 };
            assert(r[a] == s[a2]);
        }
    }
    lemma_entry_in_map(r, p);
    let m_old = entries_map(s);
    let m_new = entries_map(r);
    assert forall|k: Seq<char>| k != key implies (#[trigger] m_new.contains_key(k) == m_old.contains_key(k))
        && (m_new.contains_key(k) ==> m_new[k] == m_old[k]) by {
        if m_old.contains_key(k) {
            let j = choose|j: int| 0 <= j < s.len() && #[trigger] s[j].0@ == k;
            lemma_entry_in_map(s, j);
            let j2 = if j < p { j } else { j + 1 };
            assert(r[j2] == s[j]);
            lemma_entry_in_map(r, j2);
        }
        if m_new.contains_key(k) {
            let j = choose|j: int| 0 <= j < r.len() && #[trigger] r[j].0@ == k;
            assert(j != p);
            let j0 = if j < p { j } else { j - 1 };
            assert(r[j] == s[j0]);
            assert(has_name(s, k));
        }
    }
    assert(m_new =~= m_old.insert(key, e.1));
}

impl View for Lock {
    type V = Map<Seq<char>, PlugItem>;

    closed spec fn view(&self) -> Map<Seq<char>, PlugItem> {
        entries_map(self.entries@)
    }
}

impl Lock {
    #[verifier::type_invariant]
    spec fn names_sorted(self) -> bool {
        sorted_names(self.entries@)
    }

    /// A lock file without plugins.
    pub fn empty() -> (res: Self)
        ensures
            res@ == Map::<Seq<char>, PlugItem>::empty(),
    {
        let res = Lock { entries: Vec::new() };
        assert(res@ =~= Map::<Seq<char>, PlugItem>::empty());
        res
    }

    /// The entries, each name once, in the order of their names.
    pub fn items(&self) -> (res: &Vec<(String, PlugItem)>)
        ensures
            sorted_names(res@),
            unique_names(res@),
            entries_map(res@) == self@,
    {
        proof {
            use_type_invariant(self);
            lemma_sorted_unique(self.entries@);
        }
        &self.entries
    }

    /// The index of the entry named `name`.
    fn position(&self, name: &String) -> (res: Option<usize>)
        ensures
            match res {
                Some(i) => i < self.entries@.len() && self.entries@[i as int].0@ == name@,
                None => !has_name(self.entries@, name@),
            },
    {
        let mut i: usize = 0;
        while i < self.entries.len()
            invariant
                0 <= i <= self.entries@.len(),
                forall|j: int| 0 <= j < i ==> #[trigger] self.entries@[j].0@ != name@,
            decreases self.entries@.len() - i,
        {
            if self.entries[i].0 == *name {
                return Some(i);
            }
            i = i + 1;
        }
        None
    }

    /// The item of the plugin `name`.
    pub fn get(&self, name: &str) -> (res: Option<&PlugItem>)
        ensures
            match res {
                Some(item) => self@.contains_key(name@) && *item == self@[name@],
                None => !self@.contains_key(name@),
            },
    {
        proof {
            use_type_invariant(self);
            lemma_sorted_unique(self.entries@);
        }
        let key = name.to_owned();
        match self.position(&key) {
            Some(i) => {
                proof {
                    lemma_entry_in_map(self.entries@, i as int);
                }
                Some(&self.entries[i].1)
            },
            None => None,
        }
    }

    /// Records `item` for the plugin `name`, in place of any item it had, at
    /// the place of its name in the order; returns the item it had.
    pub fn insert(&mut self, name: String, item: PlugItem) -> (res: Option<PlugItem>)
        ensures
            final(self)@ == old(self)@.insert(name@, item),
            match res {
                Some(prev) => old(self)@.contains_key(name@) && prev == old(self)@[name@],
                None => !old(self)@.contains_key(name@),
            },
    {
        proof {
            use_type_invariant(&*self);
            lemma_sorted_unique(self.entries@);
        }
        let ghost before = self.entries@;
        let ghost key = name@;
        let ghost new_item = item;
        let mut entries: Vec<(String, PlugItem)> = Vec::new();
        std::mem::swap(&mut entries, &mut self.entries);
        assert(entries@ == before);
        let mut p: usize = 0;
        while p < entries.len() && str_less_exec(entries[p].0.as_str(), name.as_str())
            invariant
                entries@ == before,
                p <= before.len(),
                name@ == key,
                forall|k: int| 0 <= k < p ==> str_less(#[trigger] before[k].0@, key),
            decreases before.len() - p,
        {
            p = p + 1;
        }
        let found = p < entries.len() && entries[p].0 == name;
        let ghost kept: Seq<(String, PlugItem)> = if found {
            before.remove(p as int)
        } else {
            before
        };
        let res = if found {
            proof {
                lemma_entry_in_map(before, p as int);
                lemma_map_remove(before, p as int);
            }
            let prev = entries.remove(p);
            Some(prev.1)
        } else {
            proof {
                assert forall|k: int| 0 <= k < before.len() implies #[trigger] before[k].0@ != key by {
                    if k < p {
                        lemma_str_less_irreflexive(key);
                    } else {
                        assert(!str_less(before[p as int].0@, key));
                        assert(before[p as int].0@ != key);
                        lemma_str_less_total(before[p as int].0@, key);
                        if k > p {
                            assert(str_less(before[p as int].0@, before[k].0@));
                            lemma_str_less_transitive(key, before[p as int].0@, before[k].0@);
                            lemma_str_less_irreflexive(key);
                        }
                    }
                }
            }
            None
        };
        proof {
            assert(entries@ == kept);
            assert(!has_name(kept, key));
            assert(unique_names(kept));
            lemma_map_insert_at(kept, p as int, (name, new_item));
            let after = kept.insert(p as int, (name, new_item));
            // Everything before `p` comes before the name, the rest after it.
            assert forall|a: int| 0 <= a < kept.len() implies (a < p ==> str_less(
                #[trigger] kept[a].0@,
                key,
            )) && (a >= p ==> str_less(key, kept[a].0@)) by {
                let a0 = if found && a >= p { a + 1 } else { a };
                assert(kept[a] == before[a0]);
                if a >= p {
                    assert(p < before.len());
                    if found {
                        assert(before[p as int].0@ == key);
                        assert(str_less(before[p as int].0@, before[a0].0@));
                    } else {
                        assert(!str_less(before[p as int].0@, key));
                        lemma_str_less_total(before[p as int].0@, key);
                        assert(before[p as int].0@ != key) by {
                            assert(!has_name(before, key));
                        }
                        if a0 > p {
                            assert(str_less(before[p as int].0@, before[a0].0@));
                            lemma_str_less_transitive(key, before[p as int].0@, before[a0].0@);
                        }
                    }
                }
            }
            assert forall|a: int, b: int| 0 <= a < b < after.len() implies str_less(
                #[trigger] after[a].0@,
                #[trigger] after[b].0@,
            ) by {
                if b < p {
                    assert(after[a] == kept[a]);
                    assert(after[b] == kept[b]);
                    let a0 = a;
                    let b0 = b;
                    assert(kept[a] == before[a0]);
                    assert(kept[b] == before[b0]);
                } else if b == p {
                    assert(after[a] == kept[a]);
                } else if a == p {
                    assert(after[b] == kept[b - 1]);
                } else if a < p {
                    assert(after[a] == kept[a]);
                    assert(after[b] == kept[b - 1]);
                    lemma_str_less_transitive(kept[a].0@, key, kept[b - 1].0@);
                } else {
                    assert(after[a] == kept[a - 1]);
                    assert(after[b] == kept[b - 1]);
                    let a0 = if found { a } else { a - 1 };
                    let b0 = if found { b } else { b - 1 };
                    assert(kept[a - 1] == before[a0]);
                    assert(kept[b - 1] == before[b0]);
                }
            }
            if found {
                assert(entries_map(before).remove(key).insert(key, new_item) =~= entries_map(
                    before,
                ).insert(key, new_item));
            }
        }
        entries.insert(p, (name, item));
        self.entries = entries;
        res
    }
}


/// Read after write: when `Lock::insert(name, item)` turns `before` into
/// `after`, `Lock::get(name)` on `after` finds `item`, and `Lock::get` of any
/// other name finds on `after` what it found on `before`.
pub proof fn insert_then_get(before: Lock, after: Lock, name: Seq<char>, item: PlugItem, other: Seq<char>)
    requires
        after@ == before@.insert(name, item),
    ensures
        after@.contains_key(name),
        after@[name] == item,
        other != name ==> (after@.contains_key(other) == before@.contains_key(other)),
        other != name && before@.contains_key(other) ==> after@[other] == before@[other],
{
}

/// Recording two items for one plugin, one after the other, leaves the lock
/// file as recording the second alone would.
pub proof fn insert_twice(
    before: Lock,
    middle: Lock,
    after: Lock,
    name: Seq<char>,
    first: PlugItem,
    second: PlugItem,
)
    requires
        middle@ == before@.insert(name, first),
        after@ == middle@.insert(name, second),
    ensures
        after@ == before@.insert(name, second),
{
    assert(before@.insert(name, first).insert(name, second) =~= before@.insert(name, second));
}

} // verus!
