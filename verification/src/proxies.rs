//! The mapping of a site: from location (a URL path prefix) to target.
//!
//! The mapping is kept as a list of entries in the order in which their
//! locations were first inserted; no location occurs twice.
use vstd::prelude::*;
use vstd::string::*;

verus! {

/// One entry as text: location, then target.
pub type Entry = (Seq<char>, Seq<char>);

/// The index of the first entry at or after `from` whose location is `key`,
/// or the number of entries if there is none.
pub open spec fn key_index(entries: Seq<Entry>, key: Seq<char>, from: int) -> int
    decreases entries.len() - from,
{
    if 0 <= from < entries.len() && entries[from].0 != key {
        key_index(entries, key, from + 1)
    } else {
        from
    }
}

/// Whether some entry has the location `key`.
pub open spec fn has_key(entries: Seq<Entry>, key: Seq<char>) -> bool {
    key_index(entries, key, 0) < entries.len()
}

/// The target of the location `key`.
pub open spec fn lookup(entries: Seq<Entry>, key: Seq<char>) -> Option<Seq<char>> {
    if has_key(entries, key) {
        Some(entries[key_index(entries, key, 0)].1)
    } else {
        None
    }
}

/// The entries after `key` has been given the target `value`: the entry of
/// `key` is replaced where it stands, or a new entry is added at the end.
pub open spec fn with_entry(entries: Seq<Entry>, key: Seq<char>, value: Seq<char>) -> Seq<Entry> {
    if has_key(entries, key) {
        entries.update(key_index(entries, key, 0), (key, value))
    } else {
        entries.push((key, value))
    }
}

/// No location occurs twice.
pub open spec fn distinct_keys(entries: Seq<Entry>) -> bool {
    forall|i: int, j: int|
        0 <= i < j < entries.len() ==> (#[trigger] entries[i]).0 != (#[trigger] entries[j]).0
}

/// `key_index` finds the first entry with the location, if there is one.
pub proof fn lemma_key_index(entries: Seq<Entry>, key: Seq<char>, from: int)
    requires
        0 <= from <= entries.len(),
    ensures
        from <= key_index(entries, key, from) <= entries.len(),
        forall|j: int| from <= j < key_index(entries, key, from) ==> (#[trigger] entries[j]).0 != key,
        key_index(entries, key, from) < entries.len() ==> entries[key_index(entries, key, from)].0
            == key,
    decreases entries.len() - from,
{
    if from < entries.len() && entries[from].0 != key {
        lemma_key_index(entries, key, from + 1);
    }
}

/// Giving a location a target keeps the locations distinct, makes the
/// location present with that target, and leaves every other location as it
/// was.
pub proof fn lemma_with_entry(entries: Seq<Entry>, key: Seq<char>, value: Seq<char>)
    requires
        distinct_keys(entries),
    ensures
        distinct_keys(with_entry(entries, key, value)),
        lookup(with_entry(entries, key, value), key) == Some(value),
        forall|other: Seq<char>|
            other != key ==> lookup(with_entry(entries, key, value), other) == lookup(
                entries,
                other,
            ),
{
    let after = with_entry(entries, key, value);
    let at = key_index(entries, key, 0);
    lemma_key_index(entries, key, 0);
    assert(distinct_keys(after)) by {
        assert forall|i: int, j: int| 0 <= i < j < after.len() implies (#[trigger] after[i]).0 != (
        #[trigger] after[j]).0 by {
            if at < entries.len() {
                assert(entries[i].0 != entries[j].0);
            } else if j < entries.len() {
                assert(entries[i].0 != entries[j].0);
            } else {
                assert(entries[i].0 != key);
            }
        }
    }
    lemma_key_index(after, key, 0);
    assert(key_index(after, key, 0) == at) by {
        if key_index(after, key, 0) < at {
            assert(entries[key_index(after, key, 0)].0 != key);
        }
        assert(after[at].0 == key);
    }
    assert forall|other: Seq<char>| other != key implies lookup(after, other) == lookup(
        entries,
        other,
    ) by {
        lemma_key_index(entries, other, 0);
        lemma_key_index(after, other, 0);
        let a = key_index(entries, other, 0);
        let b = key_index(after, other, 0);
        if a < entries.len() {
            assert(after[a].0 == other);
            if b < a {
                assert(entries[b].0 != other);
            }
        }
        if b < after.len() {
            assert(b < entries.len());
            assert(entries[b].0 == other);
            if a < b {
                assert(after[a].0 != other);
            }
        }
    }
}

/// A location that has a target still has one after any location was given
/// a target.
pub proof fn lemma_with_entry_keeps(
    entries: Seq<Entry>,
    key: Seq<char>,
    value: Seq<char>,
    other: Seq<char>,
)
    requires
        has_key(entries, other),
    ensures
        has_key(with_entry(entries, key, value), other),
{
    let after = with_entry(entries, key, value);
    let at = key_index(entries, other, 0);
    lemma_key_index(entries, other, 0);
    lemma_key_index(entries, key, 0);
    lemma_key_index(after, other, 0);
    assert(after[at].0 == other);
    if key_index(after, other, 0) >= after.len() {
        assert(after[at].0 != other);
    }
}

/// The text of an entry.
pub open spec fn entry_text(e: (String, String)) -> Entry {
    (e.0@, e.1@)
}

/// A mapping from location to target.
#[derive(Clone, Debug, PartialEq, Eq)]
pub struct ProxyMap {
    entries: Vec<(String, String)>,
}

impl View for ProxyMap {
    type V = Seq<Entry>;

    /// The entries, in the order in which their locations were first
    /// inserted.
    closed spec fn view(&self) -> Seq<Entry> {
        self.entries@.map_values(|e: (String, String)| entry_text(e))
    }
}

impl ProxyMap {
    /// No location occurs twice.
    pub open spec fn wf(&self) -> bool {
        distinct_keys(self@)
    }

    /// The empty mapping.
    pub fn new() -> (r: ProxyMap)
        ensures
            r@ == Seq::<Entry>::empty(),
            r.wf(),
    {
        ProxyMap { entries: Vec::new() }
    }

    /// The number of locations.
    pub fn len(&self) -> (n: usize)
        ensures
            n == self@.len(),
    {
        self.entries.len()
    }

    /// The location of the entry at `index`.
    pub fn location(&self, index: usize) -> (r: &String)
        requires
            index < self@.len(),
        ensures
            r@ == self@[index as int].0,
    {
        &self.entries[index].0
    }

    /// The target of the entry at `index`.
    pub fn target(&self, index: usize) -> (r: &String)
        requires
            index < self@.len(),
        ensures
            r@ == self@[index as int].1,
    {
        &self.entries[index].1
    }

    /// The index of the entry of `key`, or the number of entries.
    pub fn position(&self, key: &str) -> (r: usize)
        ensures
            r == key_index(self@, key@, 0),
            r <= self@.len(),
    {
        let wanted = String::from_str(key);
        let mut i: usize = 0;
        while i < self.entries.len() && self.entries[i].0 != wanted
            invariant
                i <= self.entries.len(),
                wanted@ == key@,
                key_index(self@, key@, i as int) == key_index(self@, key@, 0),
            decreases self.entries.len() - i,
        {
            i += 1;
        }
        i
    }

    /// Whether `key` has a target.
    pub fn contains_key(&self, key: &str) -> (r: bool)
        ensures
            r == has_key(self@, key@),
    {
        self.position(key) < self.entries.len()
    }

    /// The target of `key`.
    pub fn get(&self, key: &str) -> (r: Option<&String>)
        ensures
            match r {
                Some(value) => lookup(self@, key@) == Some(value@),
                None => lookup(self@, key@) is None,
            },
    {
        let at = self.position(key);
        if at < self.entries.len() {
            Some(&self.entries[at].1)
        } else {
            None
        }
    }

    /// Gives `key` the target `value`. A location that is present keeps its
    /// place; a new one goes to the end.
    pub fn insert(&mut self, key: String, value: String)
        requires
            old(self).wf(),
        ensures
            final(self)@ == with_entry(old(self)@, key@, value@),
            final(self).wf(),
    {
        let at = self.position(key.as_str());
        proof {
            lemma_with_entry(self@, key@, value@);
        }
        if at < self.entries.len() {
            self.entries[at] = (key, value);
        } else {
            self.entries.push((key, value));
        }
    }
}

} // verus!
