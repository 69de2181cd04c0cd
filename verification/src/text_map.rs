//! Maps from texts to texts, and to numbers.

use vstd::prelude::*;
use vstd::string::*;
use crate::str_map::{StrMap, entry, pairs, slot, slot_from, with_entry};

verus! {

/// The entries of a map, with each value as a text.
pub open spec fn text_list(s: Seq<(Seq<char>, String)>) -> Seq<(Seq<char>, Seq<char>)> {
    Seq::new(s.len(), |i: int| (s[i].0, s[i].1@))
}

proof fn lemma_text_slot(s: Seq<(Seq<char>, String)>, k: Seq<char>, i: int)
    requires
        0 <= i <= s.len(),
    ensures
        slot_from(text_list(s), k, i) == slot_from(s, k, i),
        i <= slot_from(s, k, i) <= s.len(),
    decreases s.len() - i,
{
    if i < s.len() {
        assert(text_list(s)[i].0 == s[i].0);
        lemma_text_slot(s, k, i + 1);
    }
}

/// Entering a value enters its text.
pub proof fn lemma_text_entry(s: Seq<(Seq<char>, String)>, k: Seq<char>, v: String)
    ensures
        text_list(with_entry(s, k, v)) == with_entry(text_list(s), k, v@),
        entry(text_list(s), k) == match entry(s, k) {
            Some(t) => Some(t@),
            None => None,
        },
{
    lemma_text_slot(s, k, 0);
    let p = slot(s, k);
    assert(text_list(with_entry(s, k, v)) =~= with_entry(text_list(s), k, v@));
}

impl StrMap<String> {
    /// The entries, with each value as a text.
    pub open(crate) spec fn texts(&self) -> Seq<(Seq<char>, Seq<char>)> {
        text_list(self.list())
    }

    /// Enters the text of a key, in place of the one that it had.
    pub fn put(&mut self, k: &str, v: &str)
        ensures
            final(self).texts() == with_entry(old(self).texts(), k@, v@),
    {
        let value = v.to_string();
        proof {
            lemma_text_entry(self.list(), k@, value);
        }
        self.insert(k.to_string(), value);
    }

    /// The text of a key.
    pub fn text_at(&self, k: &str) -> (r: Option<&String>)
        ensures
            (match r {
                Some(v) => entry(self.texts(), k@) == Some(v@),
                None => entry(self.texts(), k@) is None,
            }),
    {
        proof {
            lemma_text_entry(self.list(), k@, arbitrary());
        }
        self.get(k)
    }

    /// A map with the same entries.
    pub fn copy(&self) -> (r: StrMap<String>)
        ensures
            r.texts() == self.texts(),
    {
        let mut entries: Vec<(String, String)> = Vec::new();
        let mut i: usize = 0;
        while i < self.entries.len()
            invariant
                i <= self.entries.len(),
                entries@.len() == i,
                forall|j: int|
                    0 <= j < i ==> (#[trigger] entries@[j]).0@ == self.entries@[j].0@
                        && entries@[j].1@ == self.entries@[j].1@,
            decreases self.entries@.len() - i,
        {
            entries.push((self.entries[i].0.clone(), self.entries[i].1.clone()));
            i = i + 1;
        }
        proof {
            use_type_invariant(&*self);
            assert(text_list(pairs(entries@)) =~= self.texts());
            assert(crate::str_map::ascending(pairs(entries@))) by {
                assert forall|a: int, b: int| 0 <= a < b < entries@.len() implies
                    crate::str_map::precedes(
                    (#[trigger] pairs(entries@)[a]).0,
                    (#[trigger] pairs(entries@)[b]).0,
                ) by {
                    assert(pairs(entries@)[a].0 == self.list()[a].0);
                    assert(pairs(entries@)[b].0 == self.list()[b].0);
                }
            }
        }
        StrMap { entries }
    }
}

impl StrMap<u64> {
    /// A map with the same entries.
    pub fn copy(&self) -> (r: StrMap<u64>)
        ensures
            r.list() == self.list(),
    {
        let mut entries: Vec<(String, u64)> = Vec::new();
        let mut i: usize = 0;
        while i < self.entries.len()
            invariant
                i <= self.entries.len(),
                entries@.len() == i,
                forall|j: int|
                    0 <= j < i ==> (#[trigger] entries@[j]).0@ == self.entries@[j].0@
                        && entries@[j].1 == self.entries@[j].1,
            decreases self.entries@.len() - i,
        {
            let n: u64 = self.entries[i].1;
            entries.push((self.entries[i].0.clone(), n));
            i = i + 1;
        }
        proof {
            use_type_invariant(&*self);
            assert(pairs(entries@) =~= self.list());
        }
        StrMap { entries }
    }
}

} // verus!
