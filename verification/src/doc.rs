//! A raw configuration document: an untyped, tree-shaped key-value structure
//! as a build tool supplies it, with string, boolean, integer, array and table
//! nodes. Key lookup returns the first entry with a matching key.

use vstd::prelude::*;

verus! {

/// One node of a raw configuration document.
pub enum DocValue {
    Str(String),
    Bool(bool),
    Int(i64),
    Array(Vec<DocValue>),
    Table(DocTable),
    /// A node of a kind the generator never reads (dates, floats, ...).
    Other,
}

/// A table node: an ordered list of key-value entries.
pub struct DocTable {
    pub entries: Vec<(String, DocValue)>,
}

/// The value of the first entry of `entries` whose key is `key`.
pub open spec fn lookup_spec(entries: Seq<(String, DocValue)>, key: Seq<char>) -> Option<DocValue>
    decreases entries.len(),
{
    if entries.len() == 0 {
        None
    } else if entries[0].0@ == key {
        Some(entries[0].1)
    } else {
        lookup_spec(entries.skip(1), key)
    }
}

proof fn lemma_lookup_prefix_miss(entries: Seq<(String, DocValue)>, key: Seq<char>, i: int)
    requires
        0 <= i <= entries.len(),
        forall|j: int| 0 <= j < i ==> entries[j].0@ != key,
    ensures
        lookup_spec(entries, key) == lookup_spec(entries.skip(i), key),
    decreases i,
{
    if i > 0 {
        assert(forall|j: int| 0 <= j < i - 1 ==> entries.skip(1)[j].0@ != key);
        lemma_lookup_prefix_miss(entries.skip(1), key, i - 1);
        assert(entries.skip(1).skip(i - 1) =~= entries.skip(i));
        assert(lookup_spec(entries, key) == lookup_spec(entries.skip(1), key));
    } else {
        assert(entries.skip(0) =~= entries);
    }
}

impl DocTable {
    /// What the table holds at `key`: its first matching entry's value.
    pub open spec fn spec_get(&self, key: Seq<char>) -> Option<DocValue> {
        lookup_spec(self.entries@, key)
    }

    pub fn new() -> (r: Self)
        ensures
            r.entries@.len() == 0,
    {
        DocTable { entries: Vec::new() }
    }

    pub fn push(&mut self, key: String, value: DocValue)
        ensures
            final(self).entries@ == old(self).entries@.push((key, value)),
    {
        self.entries.push((key, value));
    }

    /// First entry with key `key`, if any.
    pub fn get<'a>(&'a self, key: &String) -> (r: Option<&'a DocValue>)
        ensures
            match r {
                Some(v) => self.spec_get(key@) == Some(*v),
                None => self.spec_get(key@) is None,
            },
    {
        let n = self.entries.len();
        let mut i: usize = 0;
        while i < n
            invariant
                n == self.entries@.len(),
                i <= n,
                forall|j: int| 0 <= j < i ==> self.entries@[j].0@ != key@,
            decreases n - i,
        {
            if self.entries[i].0.eq(key) {
                proof {
                    lemma_lookup_prefix_miss(self.entries@, key@, i as int);
                    assert(lookup_spec(self.entries@.skip(i as int), key@)
                        == Some(self.entries@[i as int].1));
                }
                return Some(&self.entries[i].1);
            }
            i += 1;
        }
        proof {
            lemma_lookup_prefix_miss(self.entries@, key@, n as int);
        }
        None
    }
}

} // verus!
