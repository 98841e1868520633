//! A map from texts to values that is walked in the order of its keys.
use crate::text::{comes_before, same_text, text_less, text_less_is_irreflexive};
use crate::text::{text_less_is_total, text_less_is_transitive};
use vstd::prelude::*;

verus! {

/// A list of keys with their values. Maps made by [`TextMap::new`] and [`TextMap::insert`] have
/// their keys in ascending order, each once.
#[derive(Debug)]
pub struct TextMap<V> {
    pub entries: Vec<(String, V)>,
}

/// The value of the first entry with the given key.
pub open spec fn lookup<V>(entries: Seq<(String, V)>, key: Seq<char>) -> Option<V>
    decreases entries.len(),
{
    if entries.len() == 0 {
        None
    } else if entries[0].0@ == key {
        Some(entries[0].1)
    } else {
        lookup(entries.drop_first(), key)
    }
}

/// Whether the keys are in ascending order, each once.
pub open spec fn is_ordered<V>(entries: Seq<(String, V)>) -> bool {
    forall|i: int, j: int|
        0 <= i < j < entries.len() ==> text_less(
            (#[trigger] entries[i]).0@,
            (#[trigger] entries[j]).0@,
        )
}

/// The entry at `i` is what a lookup of its key finds, if no earlier entry has the same key.
pub proof fn lookup_finds<V>(entries: Seq<(String, V)>, i: int)
    requires
        0 <= i < entries.len(),
        forall|j: int| 0 <= j < i ==> (#[trigger] entries[j]).0@ != entries[i].0@,
    ensures
        lookup(entries, entries[i].0@) == Some(entries[i].1),
    decreases entries.len(),
{
    if i > 0 {
        let rest = entries.drop_first();
        assert(entries[0].0@ != entries[i].0@);
        assert forall|j: int| 0 <= j < i - 1 implies (#[trigger] rest[j]).0@ != rest[i - 1].0@ by {
            assert(rest[j] == entries[j + 1]);
        }
        lookup_finds(rest, i - 1);
    }
}

/// A lookup of a key that no entry has finds nothing.
pub proof fn lookup_misses<V>(entries: Seq<(String, V)>, key: Seq<char>)
    requires
        forall|j: int| 0 <= j < entries.len() ==> (#[trigger] entries[j]).0@ != key,
    ensures
        lookup(entries, key) is None,
    decreases entries.len(),
{
    if entries.len() > 0 {
        let rest = entries.drop_first();
        assert(entries[0].0@ != key);
        assert forall|j: int| 0 <= j < rest.len() implies (#[trigger] rest[j]).0@ != key by {
            assert(rest[j] == entries[j + 1]);
        }
        lookup_misses(rest, key);
    }
}

/// What a lookup finds is the value of the first entry with the key.
pub proof fn lookup_is_first<V>(entries: Seq<(String, V)>, key: Seq<char>) -> (i: int)
    ensures
        match lookup(entries, key) {
            Some(value) => {
                &&& 0 <= i < entries.len()
                &&& entries[i].0@ == key
                &&& entries[i].1 == value
                &&& forall|j: int| 0 <= j < i ==> (#[trigger] entries[j]).0@ != key
            },
            None => forall|j: int| 0 <= j < entries.len() ==> (#[trigger] entries[j]).0@ != key,
        },
    decreases entries.len(),
{
    if entries.len() == 0 || entries[0].0@ == key {
        0
    } else {
        let rest = entries.drop_first();
        let i = lookup_is_first(rest, key);
        assert forall|j: int| 0 <= j < entries.len() && (lookup(entries, key) is Some ==> j < i + 1)
            implies (#[trigger] entries[j]).0@ != key by {
            if j > 0 {
                assert(rest[j - 1] == entries[j]);
            }
        }
        i + 1
    }
}

/// In an ordered list no two entries have the same key.
proof fn ordered_keys_differ<V>(entries: Seq<(String, V)>, i: int, j: int)
    requires
        is_ordered(entries),
        0 <= i < entries.len(),
        0 <= j < entries.len(),
        i != j,
    ensures
        entries[i].0@ != entries[j].0@,
{
    text_less_is_irreflexive(entries[i].0@);
    if i < j {
        assert(text_less(entries[i].0@, entries[j].0@));
    } else {
        assert(text_less(entries[j].0@, entries[i].0@));
    }
}

/// In an ordered list a lookup finds the one entry with the key, wherever it stands.
pub proof fn lookup_in_ordered<V>(entries: Seq<(String, V)>, i: int)
    requires
        is_ordered(entries),
        0 <= i < entries.len(),
    ensures
        lookup(entries, entries[i].0@) == Some(entries[i].1),
{
    assert forall|j: int| 0 <= j < i implies (#[trigger] entries[j]).0@ != entries[i].0@ by {
        ordered_keys_differ(entries, j, i);
    }
    lookup_finds(entries, i);
}

impl<V> View for TextMap<V> {
    type V = Map<Seq<char>, V>;

    open spec fn view(&self) -> Map<Seq<char>, V> {
        Map::new(
            |key: Seq<char>| lookup(self.entries@, key) is Some,
            |key: Seq<char>| lookup(self.entries@, key)->0,
        )
    }
}

impl<V> TextMap<V> {
    /// Whether the keys are in ascending order, each once.
    pub open spec fn ordered(self) -> bool {
        is_ordered(self.entries@)
    }

    /// A map without entries.
    pub fn new() -> (map: TextMap<V>)
        ensures
            map.entries@.len() == 0,
            map.ordered(),
            map@ == Map::<Seq<char>, V>::empty(),
    {
        let map = TextMap { entries: Vec::new() };
        assert(map@ =~= Map::<Seq<char>, V>::empty());
        map
    }

    /// The value of the given key.
    pub fn get(&self, key: &str) -> (value: Option<&V>)
        ensures
            match value {
                Some(v) => lookup(self.entries@, key@) == Some(*v),
                None => lookup(self.entries@, key@) is None,
            },
    {
        let mut i: usize = 0;
        while i < self.entries.len()
            invariant
                i <= self.entries.len(),
                forall|j: int| 0 <= j < i ==> (#[trigger] self.entries@[j]).0@ != key@,
            decreases self.entries.len() - i,
        {
            if same_text(self.entries[i].0.as_str(), key) {
                proof {
                    lookup_finds(self.entries@, i as int);
                }
                return Some(&self.entries[i].1);
            }
            i += 1;
        }
        proof {
            lookup_misses(self.entries@, key@);
        }
        None
    }

    /// Whether there is an entry with the given key.
    pub fn contains_key(&self, key: &str) -> (found: bool)
        ensures
            found == (lookup(self.entries@, key@) is Some),
    {
        self.get(key).is_some()
    }

    /// The place of the first entry whose key does not come before `key`.
    fn place_of(&self, key: &str) -> (place: usize)
        requires
            self.ordered(),
        ensures
            place <= self.entries@.len(),
            forall|j: int| 0 <= j < place ==> text_less((#[trigger] self.entries@[j]).0@, key@),
            forall|j: int|
                place <= j < self.entries@.len() ==> !text_less(
                    (#[trigger] self.entries@[j]).0@,
                    key@,
                ),
    {
        let mut i: usize = 0;
        while i < self.entries.len() && comes_before(self.entries[i].0.as_str(), key)
            invariant
                i <= self.entries.len(),
                forall|j: int| 0 <= j < i ==> text_less((#[trigger] self.entries@[j]).0@, key@),
            decreases self.entries.len() - i,
        {
            i += 1;
        }
        proof {
            assert forall|j: int| i <= j < self.entries@.len() implies !text_less(
                (#[trigger] self.entries@[j]).0@,
                key@,
            ) by {
                if i < j && text_less(self.entries@[j].0@, key@) {
                    text_less_is_transitive(
                        self.entries@[i as int].0@,
                        self.entries@[j].0@,
                        key@,
                    );
                }
            }
        }
        i
    }

    /// Gives `key` the value `value`, in place of the value that it had.
    pub fn insert(&mut self, key: String, value: V)
        requires
            old(self).ordered(),
        ensures
            final(self).ordered(),
            final(self)@ == old(self)@.insert(key@, value),
    {
        let place = self.place_of(key.as_str());
        let ghost before = self.entries@;
        let ghost name = key@;
        let replaced = place < self.entries.len() && same_text(
            self.entries[place].0.as_str(),
            key.as_str(),
        );
        if replaced {
            let _ = self.entries.remove(place);
        }
        self.entries.insert(place, (key, value));
        proof {
            let after = self.entries@;
            assert(after =~= if replaced {
                before.update(place as int, (key, value))
            } else {
                before.insert(place as int, (key, value))
            });
            let shift: int = if replaced {
                0
            } else {
                1
            };
            assert forall|j: int| place < j < after.len() implies text_less(
                name,
                (#[trigger] after[j]).0@,
            ) by {
                let k = j - shift;
                assert(after[j] == before[k]);
                assert(!text_less(before[k].0@, name));
                text_less_is_total(before[k].0@, name);
                if replaced {
                    assert(text_less(before[place as int].0@, before[k].0@));
                } else if before[k].0@ == name {
                    if place < k {
                        assert(text_less(before[place as int].0@, before[k].0@));
                    }
                }
            }
            assert forall|i: int, j: int| 0 <= i < j < after.len() implies text_less(
                (#[trigger] after[i]).0@,
                (#[trigger] after[j]).0@,
            ) by {
                let bi = if i < place {
                    i
                } else {
                    i - shift
                };
                let bj = if j < place {
                    j
                } else {
                    j - shift
                };
                if i != place && j != place {
                    assert(after[i] == before[bi] && after[j] == before[bj]);
                }
            }
            assert forall|k: Seq<char>|
                lookup(after, k) == (if k == name {
                    Some(value)
                } else {
                    lookup(before, k)
                }) by {
                lookup_in_ordered(after, place as int);
                if k != name {
                    let i = lookup_is_first(before, k);
                    let m = lookup_is_first(after, k);
                    if lookup(before, k) is Some {
                        let at = if i < place {
                            i
                        } else {
                            i + shift
                        };
                        assert(after[at] == before[i]);
                        lookup_in_ordered(after, at);
                    } else if lookup(after, k) is Some {
                        let at = if m < place {
                            m
                        } else {
                            m - shift
                        };
                        assert(after[m] == before[at]);
                    }
                }
            }
            assert(self@ =~= old(self)@.insert(name, value));
        }
    }

    /// Takes the value of `key` out of the map.
    pub fn remove(&mut self, key: &str) -> (value: Option<V>)
        requires
            old(self).ordered(),
        ensures
            final(self).ordered(),
            final(self)@ == old(self)@.remove(key@),
            match value {
                Some(v) => old(self)@.contains_pair(key@, v),
                None => !old(self)@.contains_key(key@),
            },
    {
        let mut i: usize = 0;
        let ghost before = self.entries@;
        while i < self.entries.len()
            invariant
                i <= self.entries.len(),
                *self == *old(self),
                before == self.entries@,
                is_ordered(before),
                forall|j: int| 0 <= j < i ==> (#[trigger] before[j]).0@ != key@,
            decreases self.entries.len() - i,
        {
            if same_text(self.entries[i].0.as_str(), key) {
                let (_, value) = self.entries.remove(i);
                proof {
                    let after = self.entries@;
                    assert(after =~= before.remove(i as int));
                    assert forall|a: int, b: int| 0 <= a < b < after.len() implies text_less(
                        (#[trigger] after[a]).0@,
                        (#[trigger] after[b]).0@,
                    ) by {
                        let ba = if a < i {
                            a
                        } else {
                            a + 1
                        };
                        let bb = if b < i {
                            b
                        } else {
                            b + 1
                        };
                        assert(after[a] == before[ba] && after[b] == before[bb]);
                    }
                    lookup_in_ordered(before, i as int);
                    assert forall|k: Seq<char>|
                        lookup(after, k) == (if k == key@ {
                            None
                        } else {
                            lookup(before, k)
                        }) by {
                        let at = lookup_is_first(before, k);
                        let m = lookup_is_first(after, k);
                        if lookup(after, k) is Some {
                            let bm = if m < i {
                                m
                            } else {
                                m + 1
                            };
                            assert(after[m] == before[bm]);
                            lookup_in_ordered(before, bm);
                            ordered_keys_differ(before, bm, i as int);
                        } else if lookup(before, k) is Some && k != key@ {
                            let am = if at < i {
                                at
                            } else {
                                at - 1
                            };
                            assert(after[am] == before[at]);
                        }
                    }
                    assert(self@ =~= old(self)@.remove(key@));
                }
                return Some(value);
            }
            i += 1;
        }
        proof {
            lookup_misses(before, key@);
            assert(self@ =~= old(self)@.remove(key@));
        }
        None
    }
}

} // verus!
