//! The backing store: a flat, case-sensitive mapping from string keys to
//! string values, standing for the process environment or an in-memory
//! substitute.  Its mathematical content is a `Map<Seq<char>, Seq<char>>`;
//! insertion order is irrelevant, a repeated insert overwrites.

use vstd::prelude::*;

verus! {

/// The map described by a list of entries, later entries overriding
/// earlier ones.
pub open spec fn spec_entries_map(entries: Seq<(String, String)>) -> Map<Seq<char>, Seq<char>>
    decreases entries.len(),
{
    if entries.len() == 0 {
        Map::empty()
    } else {
        spec_entries_map(entries.drop_last()).insert(entries.last().0@, entries.last().1@)
    }
}

/// A key matched by no entry is not in the map.
proof fn lemma_entries_map_absent(entries: Seq<(String, String)>, k: Seq<char>)
    requires
        forall|i: int| 0 <= i < entries.len() ==> entries[i].0@ != k,
    ensures
        !spec_entries_map(entries).contains_key(k),
    decreases entries.len(),
{
    if entries.len() > 0 {
        lemma_entries_map_absent(entries.drop_last(), k);
    }
}

/// The last entry whose key is `k` gives the map's value at `k`.
proof fn lemma_entries_map_last_match(entries: Seq<(String, String)>, i: int)
    requires
        0 <= i < entries.len(),
        forall|j: int| i < j < entries.len() ==> entries[j].0@ != entries[i].0@,
    ensures
        spec_entries_map(entries).contains_key(entries[i].0@),
        spec_entries_map(entries)[entries[i].0@] == entries[i].1@,
    decreases entries.len(),
{
    if i + 1 < entries.len() {
        lemma_entries_map_last_match(entries.drop_last(), i);
    }
}

/// Entries with pairwise distinct keys describe a map with one domain
/// element per entry.
proof fn lemma_entries_map_dom_len(entries: Seq<(String, String)>)
    requires
        forall|i: int, j: int| 0 <= i < j < entries.len() ==> entries[i].0@ != entries[j].0@,
    ensures
        spec_entries_map(entries).dom().finite(),
        spec_entries_map(entries).dom().len() == entries.len(),
    decreases entries.len(),
{
    if entries.len() > 0 {
        lemma_entries_map_dom_len(entries.drop_last());
        lemma_entries_map_absent(entries.drop_last(), entries.last().0@);
    }
}

/// The backing key/value store.
pub struct Store {
    entries: Vec<(String, String)>,
}

impl View for Store {
    type V = Map<Seq<char>, Seq<char>>;

    closed spec fn view(&self) -> Map<Seq<char>, Seq<char>> {
        spec_entries_map(self.entries@)
    }
}

impl Store {
    /// No two entries share a key, so each key's value is unambiguous.
    #[verifier::type_invariant]
    spec fn wf(self) -> bool {
        forall|i: int, j: int|
            0 <= i < j < self.entries@.len() ==> self.entries@[i].0@ != self.entries@[j].0@
    }

    /// The empty store.
    pub fn new() -> (r: Self)
        ensures
            r@ == Map::<Seq<char>, Seq<char>>::empty(),
    {
        Store { entries: Vec::new() }
    }

    /// The value stored under `key`, if any.
    pub fn get(&self, key: &str) -> (r: Option<&String>)
        ensures
            match r {
                Some(v) => self@.contains_key(key@) && v@ == self@[key@],
                None => !self@.contains_key(key@),
            },
    {
        proof {
            use_type_invariant(self);
        }
        let n = self.entries.len();
        let mut i: usize = 0;
        while i < n
            invariant
                n == self.entries@.len(),
                i <= n,
                forall|j: int| 0 <= j < i ==> self.entries@[j].0@ != key@,
                self.wf(),
                self@ == spec_entries_map(self.entries@),
            decreases n - i,
        {
            let pair = &self.entries[i];
            if crate::text::str_eq(pair.0.as_str(), key) {
                proof {
                    lemma_entries_map_last_match(self.entries@, i as int);
                }
                return Some(&self.entries[i].1);
            }
            i = i + 1;
        }
        proof {
            lemma_entries_map_absent(self.entries@, key@);
        }
        None
    }

    /// Whether `key` is present.
    pub fn contains_key(&self, key: &str) -> (r: bool)
        ensures
            r == self@.contains_key(key@),
    {
        self.get(key).is_some()
    }

    /// The number of keys in the store.
    pub fn len(&self) -> (r: usize)
        ensures
            self@.dom().finite(),
            r == self@.dom().len(),
    {
        proof {
            use_type_invariant(self);
            lemma_entries_map_dom_len(self.entries@);
        }
        self.entries.len()
    }

    /// Removes `key` if present.
    fn remove_key(&mut self, key: &str)
        ensures
            final(self)@ == old(self)@.remove(key@),
    {
        proof {
            use_type_invariant(&*self);
        }
        let ghost old_entries = self.entries@;
        let mut entries: Vec<(String, String)> = Vec::new();
        core::mem::swap(&mut entries, &mut self.entries);
        let n = entries.len();
        let mut i: usize = 0;
        while i < n
            invariant
                n == entries@.len(),
                entries@ == old_entries,
                i <= n,
                forall|j: int| 0 <= j < i ==> entries@[j].0@ != key@,
                forall|a: int, b: int| 0 <= a < b < n ==> entries@[a].0@ != entries@[b].0@,
            decreases n - i,
        {
            if crate::text::str_eq(entries[i].0.as_str(), key) {
                let _removed = entries.remove(i);
                proof {
                    lemma_remove_match(old_entries, i as int, key@);
                }
                self.entries = entries;
                return ;
            }
            i = i + 1;
        }
        proof {
            lemma_entries_map_absent(old_entries, key@);
            assert(spec_entries_map(old_entries).remove(key@) =~= spec_entries_map(old_entries));
        }
        self.entries = entries;
    }

    /// Binds `key` to `value`, replacing any earlier binding.
    pub fn insert(&mut self, key: String, value: String)
        ensures
            final(self)@ == old(self)@.insert(key@, value@),
    {
        let ghost old_view = self@;
        self.remove_key(key.as_str());
        proof {
            use_type_invariant(&*self);
            lemma_entries_map_absent_inverse(self.entries@, key@);
        }
        let ghost mid_entries = self.entries@;
        let mut entries: Vec<(String, String)> = Vec::new();
        core::mem::swap(&mut entries, &mut self.entries);
        entries.push((key, value));
        proof {
            assert(entries@.drop_last() =~= mid_entries);
            assert(spec_entries_map(entries@) =~= old_view.insert(
                entries@.last().0@,
                entries@.last().1@,
            ));
        }
        self.entries = entries;
    }

    /// The entries as a list of pairs, one per key.
    pub fn pairs(&self) -> (r: &Vec<(String, String)>)
        ensures
            self@.dom().finite(),
            r@.len() == self@.dom().len(),
            forall|i: int|
                0 <= i < r@.len() ==> self@.contains_key(#[trigger] r@[i].0@) && self@[r@[i].0@]
                    == r@[i].1@,
    {
        proof {
            use_type_invariant(self);
            lemma_entries_map_dom_len(self.entries@);
            assert forall|i: int| 0 <= i < self.entries@.len() implies self@.contains_key(
                #[trigger] self.entries@[i].0@,
            ) && self@[self.entries@[i].0@] == self.entries@[i].1@ by {
                lemma_entries_map_last_match(self.entries@, i);
            }
        }
        &self.entries
    }
}

/// Removing the only entry whose key is `k` removes `k` from the map.
proof fn lemma_remove_match(entries: Seq<(String, String)>, i: int, k: Seq<char>)
    requires
        0 <= i < entries.len(),
        entries[i].0@ == k,
        forall|a: int, b: int| 0 <= a < b < entries.len() ==> entries[a].0@ != entries[b].0@,
    ensures
        spec_entries_map(entries.remove(i)) == spec_entries_map(entries).remove(k),
    decreases entries.len(),
{
    let removed = entries.remove(i);
    if i == entries.len() - 1 {
        assert(removed =~= entries.drop_last());
        lemma_entries_map_absent(entries.drop_last(), k);
        assert(spec_entries_map(entries.drop_last()).insert(k, entries.last().1@).remove(k)
            =~= spec_entries_map(entries.drop_last()));
    } else {
        lemma_remove_match(entries.drop_last(), i, k);
        assert(removed.drop_last() =~= entries.drop_last().remove(i));
        assert(removed.last() == entries.last());
        assert(spec_entries_map(removed) =~= spec_entries_map(entries).remove(k));
    }
}

/// In a store whose keys are pairwise distinct, a key in the map is a key
/// of some entry; contrapositive of [`lemma_entries_map_absent`].
proof fn lemma_entries_map_absent_inverse(entries: Seq<(String, String)>, k: Seq<char>)
    requires
        !spec_entries_map(entries).contains_key(k),
    ensures
        forall|i: int| 0 <= i < entries.len() ==> entries[i].0@ != k,
    decreases entries.len(),
{
    if entries.len() > 0 {
        assert(spec_entries_map(entries).contains_key(entries.last().0@));
        lemma_entries_map_absent_inverse(entries.drop_last(), k);
        assert forall|i: int| 0 <= i < entries.len() implies entries[i].0@ != k by {
            if i < entries.len() - 1 {
                assert(entries.drop_last()[i] == entries[i]);
            }
        }
    }
}

} // verus!
