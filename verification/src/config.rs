//! The resolved per-component configuration: explicit or defaulted package
//! and artifact names, the multiplatform flag, the selected Kotlin targets,
//! and the map from other components' crate names to their package names.

use vstd::prelude::*;

verus! {

use vstd::string::StringExecFns;

/// One Kotlin platform target a component may select.
#[derive(Clone, Copy, PartialEq, Eq, Structural, Debug)]
pub enum ConfigKotlinTarget {
    Jvm,
    Android,
    Native,
}

/// A mapping from names to names, backed by a vector of entries with
/// pairwise-distinct keys. Stands in for a hash map so that its contents
/// can be reasoned about as a `Map<Seq<char>, Seq<char>>`.
#[derive(Debug)]
pub struct PackageMap {
    pub entries: Vec<(String, String)>,
}

/// The map an entry list denotes; a later entry would win over an earlier
/// one with the same key, though well-formed maps never hold such a pair.
pub open spec fn map_of(entries: Seq<(String, String)>) -> Map<Seq<char>, Seq<char>>
    decreases entries.len(),
{
    if entries.len() == 0 {
        Map::empty()
    } else {
        map_of(entries.drop_last()).insert(entries.last().0@, entries.last().1@)
    }
}

pub proof fn lemma_map_of_contains(entries: Seq<(String, String)>, key: Seq<char>)
    ensures
        map_of(entries).contains_key(key) <==> exists|i: int|
            0 <= i < entries.len() && entries[i].0@ == key,
    decreases entries.len(),
{
    if entries.len() > 0 {
        lemma_map_of_contains(entries.drop_last(), key);
        if entries.last().0@ == key {
            assert(entries[entries.len() - 1].0@ == key);
        } else if map_of(entries.drop_last()).contains_key(key) {
            let i = choose|i: int|
                0 <= i < entries.drop_last().len() && entries.drop_last()[i].0@ == key;
            assert(entries[i].0@ == key);
        } else if exists|i: int| 0 <= i < entries.len() && entries[i].0@ == key {
            let i = choose|i: int| 0 <= i < entries.len() && entries[i].0@ == key;
            assert(i < entries.len() - 1);
            assert(entries.drop_last()[i].0@ == key);
        }
    }
}

pub proof fn lemma_map_of_get(entries: Seq<(String, String)>, i: int)
    requires
        0 <= i < entries.len(),
        forall|j: int, k: int|
            0 <= j < k < entries.len() ==> entries[j].0@ != entries[k].0@,
    ensures
        map_of(entries).contains_key(entries[i].0@),
        map_of(entries)[entries[i].0@] == entries[i].1@,
    decreases entries.len(),
{
    if i == entries.len() - 1 {
        lemma_map_of_contains(entries, entries[i].0@);
    } else {
        assert(entries.drop_last()[i] == entries[i]);
        lemma_map_of_get(entries.drop_last(), i);
        assert(entries.last().0@ != entries[i].0@);
    }
}

pub proof fn lemma_map_of_len(entries: Seq<(String, String)>)
    requires
        forall|j: int, k: int|
            0 <= j < k < entries.len() ==> entries[j].0@ != entries[k].0@,
    ensures
        map_of(entries).len() == entries.len(),
        map_of(entries).dom().finite(),
    decreases entries.len(),
{
    if entries.len() > 0 {
        lemma_map_of_len(entries.drop_last());
        lemma_map_of_contains(entries.drop_last(), entries.last().0@);
        assert(forall|j: int| 0 <= j < entries.len() - 1
            ==> entries.drop_last()[j] == entries[j]);
        assert(!map_of(entries.drop_last()).contains_key(entries.last().0@));
        assert(map_of(entries).dom() =~= map_of(entries.drop_last()).dom().insert(
            entries.last().0@));
        vstd::set::axiom_set_insert_len(map_of(entries.drop_last()).dom(), entries.last().0@);
        vstd::set::axiom_set_insert_finite(map_of(entries.drop_last()).dom(), entries.last().0@);
    }
}

impl View for PackageMap {
    type V = Map<Seq<char>, Seq<char>>;

    open spec fn view(&self) -> Map<Seq<char>, Seq<char>> {
        map_of(self.entries@)
    }
}

impl PackageMap {
    /// Keys are pairwise distinct.
    pub open spec fn wf(&self) -> bool {
        forall|j: int, k: int|
            0 <= j < k < self.entries@.len() ==> self.entries@[j].0@ != self.entries@[k].0@
    }

    pub fn new() -> (r: Self)
        ensures
            r.wf(),
            r@ == Map::<Seq<char>, Seq<char>>::empty(),
            r.entries@.len() == 0,
    {
        PackageMap { entries: Vec::new() }
    }

    pub fn len(&self) -> (r: usize)
        requires
            self.wf(),
        ensures
            r == self@.len(),
            r == self.entries@.len(),
    {
        proof {
            lemma_map_of_len(self.entries@);
        }
        self.entries.len()
    }

    pub fn contains_key(&self, key: &String) -> (r: bool)
        ensures
            r == self@.contains_key(key@),
    {
        let n = self.entries.len();
        let mut i: usize = 0;
        while i < n
            invariant
                n == self.entries@.len(),
                i <= n,
                forall|j: int| 0 <= j < i ==> self.entries@[j].0@ != key@,
            decreases n - i,
        {
            if self.entries[i].0.eq(key) {
                proof {
                    assert(self.entries@[i as int].0@ == key@);
                    lemma_map_of_contains(self.entries@, key@);
                }
                return true;
            }
            i += 1;
        }
        proof {
            lemma_map_of_contains(self.entries@, key@);
        }
        false
    }

    /// The package name recorded for `key`, if any.
    pub fn get<'a>(&'a self, key: &String) -> (r: Option<&'a String>)
        requires
            self.wf(),
        ensures
            match r {
                Some(v) => self@.contains_key(key@) && self@[key@] == v@,
                None => !self@.contains_key(key@),
            },
    {
        let n = self.entries.len();
        let mut i: usize = 0;
        while i < n
            invariant
                self.wf(),
                n == self.entries@.len(),
                i <= n,
                forall|j: int| 0 <= j < i ==> self.entries@[j].0@ != key@,
            decreases n - i,
        {
            if self.entries[i].0.eq(key) {
                proof {
                    lemma_map_of_get(self.entries@, i as int);
                }
                return Some(&self.entries[i].1);
            }
            i += 1;
        }
        proof {
            lemma_map_of_contains(self.entries@, key@);
        }
        None
    }

    /// Records `value` under `key` unless an entry for `key` already exists:
    /// existing entries are never overwritten.
    pub fn insert_if_absent(&mut self, key: String, value: String)
        requires
            old(self).wf(),
        ensures
            final(self).wf(),
            final(self)@ == if old(self)@.contains_key(key@) {
                old(self)@
            } else {
                old(self)@.insert(key@, value@)
            },
    {
        if !self.contains_key(&key) {
            proof {
                lemma_map_of_contains(self.entries@, key@);
            }
            self.entries.push((key, value));
            proof {
                assert(self.entries@.drop_last() =~= old(self).entries@);
            }
        }
    }
}

/// A component's resolved configuration.
#[derive(Debug)]
pub struct Config {
    pub package_name: Option<String>,
    pub cdylib_name: Option<String>,
    pub kotlin_multiplatform: bool,
    pub kotlin_targets: Vec<ConfigKotlinTarget>,
    pub external_packages: PackageMap,
}

impl Config {
    pub open spec fn wf(&self) -> bool {
        &&& self.external_packages.wf()
        &&& self.kotlin_targets@.no_duplicates()
    }
}

/// A malformed configuration document: a recognized key held a value of the
/// wrong kind. `key` names the offending key.
#[derive(Debug)]
pub struct ConfigError {
    pub key: String,
}

impl ConfigError {
    /// A human-readable description of the error.
    pub fn message(&self) -> (r: String)
        ensures
            r@ == "invalid configuration value for key `"@ + self.key@ + "`"@,
    {
        let mut m = "invalid configuration value for key `".to_owned();
        m.append(self.key.as_str());
        m.append("`");
        m
    }
}

} // verus!
