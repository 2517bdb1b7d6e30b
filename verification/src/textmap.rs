//! A map keyed by text, ordered by key.

use crate::text::{lemma_text_order, sorts_before, text_eq, text_lt};
use vstd::prelude::*;
use vstd::string::*;

verus! {

/// A map keyed by text. Its entries are kept in ascending order of their keys.
#[derive(Debug)]
pub struct TextMap<V> {
    entries: Vec<(String, V)>,
}

/// Each text sorts before the ones behind it.
pub open spec fn ascending(keys: Seq<Seq<char>>) -> bool {
    forall|i: int, j: int| 0 <= i < j < keys.len() ==> text_lt(#[trigger] keys[i], #[trigger] keys[j])
}

impl<V> View for TextMap<V> {
    type V = Map<Seq<char>, V>;

    closed spec fn view(&self) -> Map<Seq<char>, V> {
        Map::new(
            |k: Seq<char>| self.keys().contains(k),
            |k: Seq<char>| self.entries@[self.keys().index_of(k)].1,
        )
    }
}

impl<V> TextMap<V> {
    /// The keys, in order.
    pub closed spec fn keys(self) -> Seq<Seq<char>> {
        self.entries@.map_values(|e: (String, V)| e.0@)
    }

    /// The keys ascend, so that none occurs twice.
    pub closed spec fn wf(self) -> bool {
        ascending(self.keys())
    }

    /// The keys are those of the map.
    pub proof fn lemma_keys(self)
        requires
            self.wf(),
        ensures
            ascending(self.keys()),
            forall|k: Seq<char>| #[trigger] self@.contains_key(k) <==> self.keys().contains(k),
    {
    }

    proof fn lemma_entry(self, i: int)
        requires
            self.wf(),
            0 <= i < self.entries@.len(),
        ensures
            self.keys()[i] == self.entries@[i].0@,
            self@.contains_key(self.entries@[i].0@),
            self@[self.entries@[i].0@] == self.entries@[i].1,
    {
        let k = self.keys()[i];
        assert(self.keys().contains(k));
        let j = self.keys().index_of(k);
        lemma_text_order(k, k, k);
        assert(0 <= j < self.keys().len() && self.keys()[j] == k);
        assert(i == j);
    }

    pub fn new() -> (out: Self)
        ensures
            out.wf(),
            out@ == Map::<Seq<char>, V>::empty(),
    {
        let out = TextMap { entries: Vec::new() };
        assert(out@ =~= Map::<Seq<char>, V>::empty());
        out
    }

    pub fn len(&self) -> (n: usize)
        ensures
            n == self.keys().len(),
    {
        self.entries.len()
    }

    /// The `i`th entry in order of keys.
    pub fn entry(&self, i: usize) -> (out: (&String, &V))
        requires
            self.wf(),
            i < self.keys().len(),
        ensures
            out.0@ == self.keys()[i as int],
            self@.contains_key(out.0@),
            *out.1 == self@[out.0@],
    {
        proof {
            self.lemma_entry(i as int);
        }
        (&self.entries[i].0, &self.entries[i].1)
    }

    /// Where `key` is or would be.
    fn position(&self, key: &str) -> (out: (usize, bool))
        requires
            self.wf(),
        ensures
            out.0 <= self.entries@.len(),
            forall|j: int| 0 <= j < out.0 ==> text_lt(#[trigger] self.keys()[j], key@),
            forall|j: int|
                out.0 <= j < self.keys().len() ==> !text_lt(#[trigger] self.keys()[j], key@),
            out.1 == (out.0 < self.entries@.len() && self.keys()[out.0 as int] == key@),
            out.1 == self@.contains_key(key@),
    {
        let mut i: usize = 0;
        while i < self.entries.len() && sorts_before(self.entries[i].0.as_str(), key)
            invariant
                i <= self.entries@.len(),
                forall|j: int| 0 <= j < i ==> text_lt(#[trigger] self.keys()[j], key@),
            decreases self.entries@.len() - i,
        {
            assert(self.keys()[i as int] == self.entries@[i as int].0@);
            i += 1;
        }
        proof {
            lemma_text_order(key@, key@, key@);
            if i < self.entries@.len() {
                assert(self.keys()[i as int] == self.entries@[i as int].0@);
                assert forall|j: int| i <= j < self.keys().len() implies !text_lt(
                    #[trigger] self.keys()[j],
                    key@,
                ) by {
                    lemma_text_order(self.keys()[i as int], self.keys()[j], key@);
                }
                assert forall|j: int| i < j < self.keys().len() implies #[trigger] self.keys()[j]
                    != key@ by {
                    lemma_text_order(self.keys()[i as int], self.keys()[j], key@);
                }
            }
        }
        if i < self.entries.len() && text_eq(self.entries[i].0.as_str(), key) {
            assert(self.keys()[i as int] == key@);
            (i, true)
        } else {
            assert(!self.keys().contains(key@)) by {
                if self.keys().contains(key@) {
                    let j = choose|j: int| 0 <= j < self.keys().len() && self.keys()[j] == key@;
                    assert(j >= i);
                }
            }
            (i, false)
        }
    }

    pub fn get(&self, key: &str) -> (out: Option<&V>)
        requires
            self.wf(),
        ensures
            match out {
                Some(v) => self@.contains_key(key@) && *v == self@[key@],
                None => !self@.contains_key(key@),
            },
    {
        let (i, found) = self.position(key);
        if found {
            proof {
                self.lemma_entry(i as int);
            }
            Some(&self.entries[i].1)
        } else {
            None
        }
    }

    pub fn contains_key(&self, key: &str) -> (yes: bool)
        requires
            self.wf(),
        ensures
            yes == self@.contains_key(key@),
    {
        self.position(key).1
    }

    /// Adds an entry, or replaces the one with that key.
    pub fn insert(&mut self, key: &str, value: V)
        requires
            old(self).wf(),
        ensures
            final(self).wf(),
            final(self)@ == old(self)@.insert(key@, value),
    {
        let ghost before = *self;
        let (i, found) = self.position(key);
        if found {
            self.entries.set(i, (key.to_owned(), value));
            proof {
                assert(self.keys() =~= before.keys());
                lemma_same(*self, before@.insert(key@, value), before, i as int, key@);
            }
        } else {
            self.entries.insert(i, (key.to_owned(), value));
            proof {
                assert(self.keys() =~= before.keys().insert(i as int, key@));
                lemma_text_order(key@, key@, key@);
                assert forall|a: int, b: int| 0 <= a < b < self.keys().len() implies text_lt(
                    #[trigger] self.keys()[a],
                    #[trigger] self.keys()[b],
                ) by {
                    if a < i && b > i {
                        lemma_text_order(before.keys()[a], key@, before.keys()[b - 1]);
                    } else if a == i {
                        lemma_text_order(key@, before.keys()[b - 1], key@);
                        assert(before.keys().contains(before.keys()[b - 1]));
                    }
                }
                lemma_inserted(*self, before, i as int, key@, value);
            }
        }
    }

    /// Drops the entry with that key. True iff there was one.
    pub fn remove(&mut self, key: &str) -> (was: bool)
        requires
            old(self).wf(),
        ensures
            final(self).wf(),
            final(self)@ == old(self)@.remove(key@),
            was == old(self)@.contains_key(key@),
    {
        let ghost before = *self;
        let (i, found) = self.position(key);
        if found {
            self.entries.remove(i);
            proof {
                assert(self.keys() =~= before.keys().remove(i as int));
                lemma_removed(*self, before, i as int, key@);
            }
        } else {
            assert(self@.remove(key@) =~= self@);
        }
        found
    }
}

/// One value replaced.
proof fn lemma_same<V>(
    now: TextMap<V>,
    want: Map<Seq<char>, V>,
    before: TextMap<V>,
    i: int,
    key: Seq<char>,
)
    requires
        before.wf(),
        now.keys() == before.keys(),
        0 <= i < before.entries@.len(),
        before.keys()[i] == key,
        now.entries@.len() == before.entries@.len(),
        forall|j: int|
            0 <= j < now.entries@.len() && j != i ==> #[trigger] now.entries@[j]
                == before.entries@[j],
        want == before@.insert(key, now.entries@[i].1),
    ensures
        now@ == want,
{
    assert forall|k: Seq<char>| now@.contains_key(k) implies #[trigger] now@[k] == want[k] by {
        let j = now.keys().index_of(k);
        assert(now.keys()[j] == k);
        now.lemma_entry(j);
        before.lemma_entry(j);
        now.lemma_entry(i);
    }
    before.lemma_entry(i);
    assert(now@ =~= want);
}

/// One entry added.
proof fn lemma_inserted<V>(
    now: TextMap<V>,
    before: TextMap<V>,
    i: int,
    key: Seq<char>,
    value: V,
)
    requires
        before.wf(),
        now.wf(),
        0 <= i <= before.entries@.len(),
        now.keys() == before.keys().insert(i, key),
        now.entries@.len() == before.entries@.len() + 1,
        now.entries@[i].1 == value,
        forall|j: int| 0 <= j < i ==> #[trigger] now.entries@[j] == before.entries@[j],
        forall|j: int|
            i <= j < before.entries@.len() ==> now.entries@[j + 1] == #[trigger] before.entries@[j],
        !before.keys().contains(key),
    ensures
        now@ == before@.insert(key, value),
{
    let want = before@.insert(key, value);
    now.lemma_entry(i);
    assert forall|k: Seq<char>| #[trigger] now@.contains_key(k) == want.contains_key(k) by {
        if before.keys().contains(k) {
            let j = choose|j: int| 0 <= j < before.keys().len() && before.keys()[j] == k;
            assert(now.keys()[if j < i {
                j
            } else {
                j + 1
            }] == k);
        }
        if now.keys().contains(k) {
            let j = choose|j: int| 0 <= j < now.keys().len() && now.keys()[j] == k;
            if j < i {
                assert(before.keys()[j] == k);
            } else if j > i {
                assert(before.keys()[j - 1] == k);
            }
        }
    }
    assert forall|k: Seq<char>| now@.contains_key(k) implies #[trigger] now@[k] == want[k] by {
        let j = choose|j: int| 0 <= j < now.keys().len() && now.keys()[j] == k;
        now.lemma_entry(j);
        if j < i {
            before.lemma_entry(j);
        } else if j > i {
            before.lemma_entry(j - 1);
            assert(now.entries@[j] == before.entries@[j - 1]);
        }
    }
    assert(now@ =~= want);
}

/// One entry dropped.
proof fn lemma_removed<V>(now: TextMap<V>, before: TextMap<V>, i: int, key: Seq<char>)
    requires
        before.wf(),
        0 <= i < before.entries@.len(),
        before.keys()[i] == key,
        now.entries@ == before.entries@.remove(i),
        now.keys() == before.keys().remove(i),
    ensures
        now.wf(),
        now@ == before@.remove(key),
{
    let want = before@.remove(key);
    lemma_text_order(key, key, key);
    assert forall|k: Seq<char>| #[trigger] now@.contains_key(k) == want.contains_key(k) by {
        if before.keys().contains(k) && k != key {
            let j = choose|j: int| 0 <= j < before.keys().len() && before.keys()[j] == k;
            assert(now.keys()[if j < i {
                j
            } else {
                j - 1
            }] == k);
        }
        if now.keys().contains(k) {
            let j = choose|j: int| 0 <= j < now.keys().len() && now.keys()[j] == k;
            let b = if j < i {
                j
            } else {
                j + 1
            };
            assert(before.keys()[b] == k);
            assert(b != i);
        }
    }
    assert forall|k: Seq<char>| now@.contains_key(k) implies #[trigger] now@[k] == want[k] by {
        let j = choose|j: int| 0 <= j < now.keys().len() && now.keys()[j] == k;
        let b = if j < i {
            j
        } else {
            j + 1
        };
        assert(before.keys()[b] == k);
        now.lemma_entry(j);
        before.lemma_entry(b);
    }
    assert(now@ =~= want);
}

} // verus!
