//! A small map from text to values, kept as a list without repeated keys.
use crate::text::same_text;
use vstd::prelude::*;

verus! {

/// One entry of a [`TextMap`].
#[derive(Debug)]
pub struct TextEntry<V> {
    key: String,
    value: V,
}

/// A map from text to values.
#[derive(Debug)]
pub struct TextMap<V> {
    entries: Vec<TextEntry<V>>,
}

/// No key occurs twice.
pub closed spec fn distinct_keys<V>(entries: Seq<TextEntry<V>>) -> bool {
    forall|i: int, j: int|
        0 <= i < j < entries.len() ==> #[trigger] entries[i].key@ != #[trigger] entries[j].key@
}

/// Whether a key occurs.
pub closed spec fn has_key<V>(entries: Seq<TextEntry<V>>, key: Seq<char>) -> bool {
    exists|i: int| 0 <= i < entries.len() && #[trigger] entries[i].key@ == key
}

/// The position of a key that occurs.
pub closed spec fn key_position<V>(entries: Seq<TextEntry<V>>, key: Seq<char>) -> int {
    choose|i: int| 0 <= i < entries.len() && #[trigger] entries[i].key@ == key
}

impl<V> View for TextMap<V> {
    type V = Map<Seq<char>, V>;

    closed spec fn view(&self) -> Map<Seq<char>, V> {
        Map::new(
            |k: Seq<char>| has_key(self.entries@, k),
            |k: Seq<char>| self.entries@[key_position(self.entries@, k)].value,
        )
    }
}

proof fn lemma_position<V>(entries: Seq<TextEntry<V>>, i: int)
    requires
        distinct_keys(entries),
        0 <= i < entries.len(),
    ensures
        has_key(entries, entries[i].key@),
        key_position(entries, entries[i].key@) == i,
{
    let p = key_position(entries, entries[i].key@);
    assert(entries[i].key@ == entries[i].key@);
    assert(0 <= p < entries.len() && entries[p].key@ == entries[i].key@);
}

impl<V> TextMap<V> {
    #[verifier::type_invariant]
    spec fn well_formed(self) -> bool {
        distinct_keys(self.entries@)
    }

    /// The empty map.
    pub fn new() -> (r: TextMap<V>)
        ensures
            r@ == Map::<Seq<char>, V>::empty(),
    {
        let r = TextMap { entries: Vec::new() };
        assert(r@ =~= Map::<Seq<char>, V>::empty());
        r
    }

    fn find(&self, key: &str) -> (r: Option<usize>)
        ensures
            r is Some <==> self@.dom().contains(key@),
            r matches Some(i) ==> i < self.entries@.len() && self.entries@[i as int].key@ == key@
                && self@[key@] == self.entries@[i as int].value,
            r is None ==> forall|j: int|
                0 <= j < self.entries@.len() ==> #[trigger] self.entries@[j].key@ != key@,
    {
        proof {
            use_type_invariant(self);
        }
        let mut i: usize = 0;
        while i < self.entries.len()
            invariant
                i <= self.entries@.len(),
                distinct_keys(self.entries@),
                forall|j: int| 0 <= j < i ==> #[trigger] self.entries@[j].key@ != key@,
            decreases self.entries@.len() - i,
        {
            if same_text(self.entries[i].key.as_str(), key) {
                proof {
                    lemma_position(self.entries@, i as int);
                }
                return Some(i);
            }
            i = i + 1;
        }
        None
    }

    /// The value of a key, if it has one.
    pub fn get(&self, key: &str) -> (r: Option<&V>)
        ensures
            r is Some <==> self@.dom().contains(key@),
            r matches Some(v) ==> *v == self@[key@],
    {
        match self.find(key) {
            Some(i) => Some(&self.entries[i].value),
            None => None,
        }
    }

    /// Remove a key, if it is there.
    pub fn remove(&mut self, key: &str)
        ensures
            final(self)@ == old(self)@.remove(key@),
    {
        proof {
            use_type_invariant(&*self);
        }
        let ghost before = self.entries@;
        match self.find(key) {
            Some(at) => {
                let mut entries: Vec<TextEntry<V>> = Vec::new();
                std::mem::swap(&mut entries, &mut self.entries);
                let _ = entries.remove(at);
                let ghost after = entries@;
                proof {
                    assert(after =~= before.remove(at as int));
                    assert forall|i: int, j: int| 0 <= i < j < after.len() implies #[trigger] after[i].key@
                        != #[trigger] after[j].key@ by {
                        let a = if i < at {
                            i
                        } else {
                            i + 1
                        };
                        let b = if j < at {
                            j
                        } else {
                            j + 1
                        };
                        assert(before[a].key@ != before[b].key@);
                    }
                }
                *self = TextMap { entries };
                proof {
                    lemma_removed(before, at as int);
                    assert(self@ =~= old(self)@.remove(key@));
                }
            },
            None => {
                proof {
                    assert(!has_key(before, key@));
                    assert(self@ =~= old(self)@.remove(key@));
                }
            },
        }
    }

    /// Give a key a value, replacing the one it has.
    pub fn insert(&mut self, key: &str, value: V)
        ensures
            final(self)@ == old(self)@.insert(key@, value),
    {
        self.remove(key);
        proof {
            use_type_invariant(&*self);
        }
        let ghost before = self.entries@;
        let ghost mid = self@;
        let mut entries: Vec<TextEntry<V>> = Vec::new();
        std::mem::swap(&mut entries, &mut self.entries);
        entries.push(TextEntry { key: key.to_owned(), value });
        let ghost after = entries@;
        proof {
            assert(!mid.dom().contains(key@));
            assert(!has_key(before, key@));
            assert forall|i: int, j: int| 0 <= i < j < after.len() implies #[trigger] after[i].key@
                != #[trigger] after[j].key@ by {
                assert(after[i] == before[i]);
                if j < before.len() {
                    assert(after[j] == before[j]);
                } else {
                    assert(before[i].key@ != key@);
                }
            }
        }
        *self = TextMap { entries };
        proof {
            assert forall|k: Seq<char>| has_key(after, k) <==> (has_key(before, k) || k
                == key@) by {
                if has_key(before, k) {
                    let i = key_position(before, k);
                    assert(after[i].key@ == k);
                }
                if k == key@ {
                    assert(after[before.len() as int].key@ == k);
                }
                if has_key(after, k) {
                    let i = key_position(after, k);
                    if i < before.len() {
                        assert(before[i].key@ == k);
                    }
                }
            }
            assert forall|k: Seq<char>| has_key(after, k) implies after[key_position(after, k)].value
                == (if k == key@ {
                value
            } else {
                before[key_position(before, k)].value
            }) by {
                let p = key_position(after, k);
                if k == key@ {
                    lemma_position(after, before.len() as int);
                } else {
                    let q = key_position(before, k);
                    assert(after[q] == before[q]);
                    lemma_position(after, q);
                }
            }
            assert(self@ =~= mid.insert(key@, value));
            assert(self@ =~= old(self)@.insert(key@, value));
        }
    }

    /// Remove every key.
    pub fn clear(&mut self)
        ensures
            final(self)@ == Map::<Seq<char>, V>::empty(),
    {
        *self = TextMap::new();
    }
}

proof fn lemma_removed<V>(entries: Seq<TextEntry<V>>, at: int)
    requires
        distinct_keys(entries),
        0 <= at < entries.len(),
    ensures
        forall|k: Seq<char>| #[trigger]
            has_key(entries.remove(at), k) <==> has_key(entries, k) && k != entries[at].key@,
        forall|k: Seq<char>|
            has_key(entries.remove(at), k) ==> entries.remove(at)[#[trigger] key_position(
                entries.remove(at),
                k,
            )].value == entries[key_position(entries, k)].value,
{
    let after = entries.remove(at);
    assert forall|k: Seq<char>| #[trigger] has_key(after, k) <==> has_key(entries, k) && k
        != entries[at].key@ by {
        if has_key(after, k) {
            let i = key_position(after, k);
            if i < at {
                assert(entries[i].key@ == k);
                assert(entries[i].key@ != entries[at].key@);
            } else {
                assert(entries[i + 1].key@ == k);
                assert(entries[at].key@ != entries[i + 1].key@);
            }
        }
        if has_key(entries, k) && k != entries[at].key@ {
            let i = key_position(entries, k);
            if i < at {
                assert(after[i].key@ == k);
            } else {
                assert(after[i - 1].key@ == k);
            }
        }
    }
    assert forall|k: Seq<char>| has_key(after, k) implies after[#[trigger] key_position(
        after,
        k,
    )].value == entries[key_position(entries, k)].value by {
        let p = key_position(after, k);
        let q = if p < at {
            p
        } else {
            p + 1
        };
        assert(entries[q] == after[p]);
        lemma_position(entries, q);
    }
}

} // verus!
