//! A map keyed by text.

use crate::text::same_text;
use vstd::prelude::*;

verus! {

/// A map from texts to values of one type.
pub struct TextMap<V> {
    entries: Vec<(String, V)>,
}

/// Whether no two entries have the same key.
spec fn distinct<V>(entries: Seq<(String, V)>) -> bool {
    forall|i: int, j: int|
        0 <= i < j < entries.len() ==> (#[trigger] entries[i]).0@ != (#[trigger] entries[j]).0@
}

/// Whether some entry has the key.
spec fn listed<V>(entries: Seq<(String, V)>, key: Seq<char>) -> bool {
    exists|i: int| 0 <= i < entries.len() && (#[trigger] entries[i]).0@ == key
}

/// The entries as a map.
spec fn as_map<V>(entries: Seq<(String, V)>) -> Map<Seq<char>, V> {
    Map::new(
        |key: Seq<char>| listed(entries, key),
        |key: Seq<char>|
            {
                let i = choose|i: int| 0 <= i < entries.len() && (#[trigger] entries[i]).0@ == key;
                entries[i].1
            },
    )
}

/// Every entry is found under its key.
proof fn lemma_entry<V>(entries: Seq<(String, V)>, i: int)
    requires
        distinct(entries),
        0 <= i < entries.len(),
    ensures
        as_map(entries).contains_key(entries[i].0@),
        as_map(entries)[entries[i].0@] == entries[i].1,
{
    let key = entries[i].0@;
    assert(listed(entries, key));
    let j = choose|j: int| 0 <= j < entries.len() && (#[trigger] entries[j]).0@ == key;
    assert(j == i);
}

/// Appending an entry with a new key adds it to the map.
proof fn lemma_push<V>(entries: Seq<(String, V)>, entry: (String, V))
    requires
        distinct(entries),
        !listed(entries, entry.0@),
    ensures
        distinct(entries.push(entry)),
        as_map(entries.push(entry)) == as_map(entries).insert(entry.0@, entry.1),
{
    let after = entries.push(entry);
    assert(distinct(after));
    assert forall|key: Seq<char>| #[trigger]
        as_map(after).contains_key(key) == as_map(entries).insert(entry.0@, entry.1).contains_key(
            key,
        ) by {
        if listed(after, key) && key != entry.0@ {
            let i = choose|i: int| 0 <= i < after.len() && (#[trigger] after[i]).0@ == key;
            assert(entries[i].0@ == key);
        }
        if listed(entries, key) {
            let i = choose|i: int| 0 <= i < entries.len() && (#[trigger] entries[i]).0@ == key;
            assert(after[i].0@ == key);
        }
        assert(after[entries.len() as int].0@ == entry.0@);
    }
    assert forall|key: Seq<char>| #[trigger] as_map(after).contains_key(key) implies as_map(
        after,
    )[key] == as_map(entries).insert(entry.0@, entry.1)[key] by {
        let i = choose|i: int| 0 <= i < after.len() && (#[trigger] after[i]).0@ == key;
        lemma_entry(after, i);
        if i < entries.len() {
            assert(entries[i] == after[i]);
            lemma_entry(entries, i);
        }
    }
    assert(as_map(after) =~= as_map(entries).insert(entry.0@, entry.1));
}

/// Dropping the last entry takes its key out of the map.
proof fn lemma_pop<V>(entries: Seq<(String, V)>)
    requires
        distinct(entries),
        entries.len() > 0,
    ensures
        distinct(entries.drop_last()),
        !listed(entries.drop_last(), entries.last().0@),
        as_map(entries) == as_map(entries.drop_last()).insert(entries.last().0@, entries.last().1),
{
    let before = entries.drop_last();
    assert(distinct(before)) by {
        assert forall|i: int, j: int| 0 <= i < j < before.len() implies (#[trigger] before[i]).0@ != (
        #[trigger] before[j]).0@ by {
            assert(entries[i].0@ != entries[j].0@);
        }
    }
    assert(!listed(before, entries.last().0@)) by {
        if listed(before, entries.last().0@) {
            let i = choose|i: int|
                0 <= i < before.len() && (#[trigger] before[i]).0@ == entries.last().0@;
            assert(entries[i].0@ == entries[entries.len() - 1].0@);
        }
    }
    assert(before.push(entries.last()) =~= entries);
    lemma_push(before, entries.last());
}

impl<V> TextMap<V> {
    #[verifier::type_invariant]
    spec fn well_formed(self) -> bool {
        distinct(self.entries@)
    }

    /// An empty map.
    pub fn new() -> (result: Self)
        ensures
            result@ == Map::<Seq<char>, V>::empty(),
    {
        let result = TextMap { entries: Vec::new() };
        assert(result@ =~= Map::<Seq<char>, V>::empty());
        result
    }

    /// The position of a key, or the number of entries.
    fn position(&self, key: &str) -> (result: usize)
        ensures
            result <= self.entries@.len(),
            result < self.entries@.len() ==> self.entries@[result as int].0@ == key@,
            result == self.entries@.len() ==> !listed(self.entries@, key@),
    {
        let mut i: usize = 0;
        while i < self.entries.len()
            invariant
                i <= self.entries@.len(),
                forall|k: int| 0 <= k < i ==> (#[trigger] self.entries@[k]).0@ != key@,
            decreases self.entries@.len() - i,
        {
            if same_text(self.entries[i].0.as_str(), key) {
                return i;
            }
            i += 1;
        }
        i
    }

    /// Whether the map has a key.
    pub fn contains_key(&self, key: &str) -> (result: bool)
        ensures
            result == self@.contains_key(key@),
    {
        let i = self.position(key);
        i < self.entries.len()
    }

    /// The value of a key.
    pub fn get(&self, key: &str) -> (result: Option<&V>)
        ensures
            match result {
                Some(value) => self@.contains_key(key@) && *value == self@[key@],
                None => !self@.contains_key(key@),
            },
    {
        proof {
            use_type_invariant(self);
        }
        let i = self.position(key);
        if i < self.entries.len() {
            proof {
                lemma_entry(self.entries@, i as int);
            }
            Some(&self.entries[i].1)
        } else {
            None
        }
    }

    /// Takes a key and its value out of the map.
    pub fn remove(&mut self, key: &str) -> (result: Option<V>)
        ensures
            final(self)@ == old(self)@.remove(key@),
            match result {
                Some(value) => old(self)@.contains_key(key@) && value == old(self)@[key@],
                None => !old(self)@.contains_key(key@),
            },
    {
        proof {
            use_type_invariant(&*self);
        }
        let i = self.position(key);
        let ghost all = self.entries@;
        let mut entries: Vec<(String, V)> = Vec::new();
        std::mem::swap(&mut entries, &mut self.entries);
        if i < entries.len() {
            let (_, value) = entries.swap_remove(i);
            proof {
                let last = all.len() - 1;
                let swapped = all.update(i as int, all[last]).update(last, all[i as int]);
                assert(distinct(swapped));
                assert(entries@ =~= swapped.drop_last());
                lemma_pop(swapped);
                lemma_entry(all, i as int);
                assert forall|k: int| 0 <= k < all.len() implies swapped.contains(
                    #[trigger] all[k],
                ) by {
                    let place = if k == i {
                        last
                    } else if k == last {
                        i as int
                    } else {
                        k
                    };
                    assert(swapped[place] == all[k]);
                }
                assert forall|k: int| 0 <= k < swapped.len() implies all.contains(
                    #[trigger] swapped[k],
                ) by {
                    let place = if k == last {
                        i as int
                    } else if k == i {
                        last
                    } else {
                        k
                    };
                    assert(all[place] == swapped[k]);
                }
                lemma_same_entries(all, swapped);
                assert(as_map(entries@) =~= as_map(all).remove(key@));
            }
            self.entries = entries;
            Some(value)
        } else {
            self.entries = entries;
            assert(as_map(all) =~= as_map(all).remove(key@));
            None
        }
    }

    /// Gives a key a value, in place of the one that it has.
    pub fn insert(&mut self, key: String, value: V)
        ensures
            final(self)@ == old(self)@.insert(key@, value),
    {
        let _ = self.remove(key.as_str());
        proof {
            use_type_invariant(&*self);
        }
        let ghost kept = self.entries@;
        let mut entries: Vec<(String, V)> = Vec::new();
        std::mem::swap(&mut entries, &mut self.entries);
        proof {
            assert(!as_map(kept).contains_key(key@));
            lemma_push(kept, (key, value));
        }
        entries.push((key, value));
        self.entries = entries;
        assert(final(self)@ =~= old(self)@.insert(key@, value));
    }
}

/// Whether some text of a list is the key.
pub open spec fn names_key(keys: Seq<String>, key: Seq<char>) -> bool {
    exists|i: int| 0 <= i < keys.len() && (#[trigger] keys[i])@ == key
}

/// The keys of a list.
pub open spec fn keys_named(keys: Seq<String>) -> Set<Seq<char>> {
    Set::new(|key: Seq<char>| names_key(keys, key))
}

/// Whether some text of a list is the key.
pub fn lists_key(keys: &Vec<String>, key: &str) -> (result: bool)
    ensures
        result == names_key(keys@, key@),
{
    let mut i: usize = 0;
    while i < keys.len()
        invariant
            i <= keys@.len(),
            forall|k: int| 0 <= k < i ==> (#[trigger] keys@[k])@ != key@,
        decreases keys@.len() - i,
    {
        if same_text(keys[i].as_str(), key) {
            return true;
        }
        i += 1;
    }
    false
}

impl<V> TextMap<V> {
    /// Takes out every key that is not in the list.
    pub fn retain_keys(&mut self, keys: &Vec<String>)
        ensures
            final(self)@ == old(self)@.restrict(keys_named(keys@)),
    {
        proof {
            use_type_invariant(&*self);
        }
        let ghost all = self.entries@;
        let ghost wanted = keys_named(keys@);
        let mut rest: Vec<(String, V)> = Vec::new();
        std::mem::swap(&mut rest, &mut self.entries);
        let mut kept: Vec<(String, V)> = Vec::new();
        assert(as_map(all).restrict(wanted) =~= as_map(kept@).union_prefer_right(
            as_map(rest@).restrict(wanted),
        ));
        while rest.len() > 0
            invariant
                wanted == keys_named(keys@),
                distinct(rest@),
                distinct(kept@),
                forall|key: Seq<char>| #[trigger]
                    listed(kept@, key) ==> wanted.contains(key) && !listed(rest@, key),
                as_map(all).restrict(wanted) == as_map(kept@).union_prefer_right(
                    as_map(rest@).restrict(wanted),
                ),
            decreases rest@.len(),
        {
            let ghost before = rest@;
            let ghost held = kept@;
            proof {
                lemma_pop(before);
            }
            match rest.pop() {
                Some(entry) => {
                    let ghost key = entry.0@;
                    let ghost value = entry.1;
                    let wants = lists_key(keys, entry.0.as_str());
                    proof {
                        assert(rest@ =~= before.drop_last());
                        assert(entry == before.last());
                        assert(before[before.len() - 1].0@ == key);
                        assert(listed(before, key));
                        assert(!listed(held, key));
                        assert forall|other: Seq<char>| listed(rest@, other) implies listed(
                            before,
                            other,
                        ) by {
                            let i = choose|i: int|
                                0 <= i < rest@.len() && (#[trigger] rest@[i]).0@ == other;
                            assert(before[i].0@ == other);
                        }
                        if wants {
                            lemma_push(held, entry);
                        }
                    }
                    if wants {
                        kept.push(entry);
                        proof {
                            assert forall|other: Seq<char>| #[trigger]
                                listed(kept@, other) implies wanted.contains(other) && !listed(
                                rest@,
                                other,
                            ) by {
                                let i = choose|i: int|
                                    0 <= i < kept@.len() && (#[trigger] kept@[i]).0@ == other;
                                if i < held.len() {
                                    assert(held[i].0@ == other);
                                    assert(listed(held, other));
                                }
                            }
                        }
                    }
                    assert(as_map(all).restrict(wanted) =~= as_map(kept@).union_prefer_right(
                        as_map(rest@).restrict(wanted),
                    ));
                },
                None => {},
            }
        }
        proof {
            assert(as_map(rest@).restrict(wanted) =~= Map::<Seq<char>, V>::empty());
            assert(as_map(kept@).union_prefer_right(Map::empty()) =~= as_map(kept@));
        }
        self.entries = kept;
    }
}

/// The map that pairs make, a later pair taking the place of an earlier one with the
/// same key.
pub open spec fn map_of<V>(pairs: Seq<(Seq<char>, V)>) -> Map<Seq<char>, V>
    decreases pairs.len(),
{
    if pairs.len() == 0 {
        Map::empty()
    } else {
        map_of(pairs.drop_last()).insert(pairs.last().0, pairs.last().1)
    }
}

/// Pairs with their keys as characters.
pub open spec fn pair_views<V>(pairs: Seq<(String, V)>) -> Seq<(Seq<char>, V)> {
    pairs.map_values(|pair: (String, V)| (pair.0@, pair.1))
}

/// Whether no two pairs have the same key.
pub open spec fn distinct_keys<V>(pairs: Seq<(Seq<char>, V)>) -> bool {
    forall|i: int, j: int|
        0 <= i < j < pairs.len() ==> (#[trigger] pairs[i]).0 != (#[trigger] pairs[j]).0
}

/// Distinct entries make the same map one by one.
proof fn lemma_map_of_entries<V>(entries: Seq<(String, V)>)
    requires
        distinct(entries),
    ensures
        map_of(pair_views(entries)) == as_map(entries),
    decreases entries.len(),
{
    if entries.len() == 0 {
        assert(as_map(entries) =~= Map::<Seq<char>, V>::empty());
    } else {
        lemma_pop(entries);
        lemma_map_of_entries(entries.drop_last());
        assert(pair_views(entries).drop_last() =~= pair_views(entries.drop_last()));
    }
}

impl<V: Copy> TextMap<V> {
    /// The keys and values of the map.
    pub fn pairs(&self) -> (result: Vec<(String, V)>)
        ensures
            distinct_keys(pair_views(result@)),
            map_of(pair_views(result@)) == self@,
    {
        proof {
            use_type_invariant(self);
        }
        let mut result: Vec<(String, V)> = Vec::new();
        let mut i: usize = 0;
        while i < self.entries.len()
            invariant
                i <= self.entries@.len(),
                result@ == self.entries@.take(i as int),
            decreases self.entries@.len() - i,
        {
            result.push((self.entries[i].0.clone(), self.entries[i].1));
            assert(result@ =~= self.entries@.take(i + 1));
            i += 1;
        }
        proof {
            assert(result@ =~= self.entries@);
            lemma_map_of_entries(self.entries@);
            assert forall|i: int, j: int|
                0 <= i < j < pair_views(result@).len() implies (#[trigger] pair_views(
                result@,
            )[i]).0 != (#[trigger] pair_views(result@)[j]).0 by {
                assert(self.entries@[i].0@ != self.entries@[j].0@);
            }
        }
        result
    }

    /// The map that pairs make.
    pub fn from_pairs(pairs: Vec<(String, V)>) -> (result: Self)
        ensures
            result@ == map_of(pair_views(pairs@)),
    {
        let mut result = TextMap::new();
        let mut i: usize = 0;
        while i < pairs.len()
            invariant
                i <= pairs@.len(),
                result@ == map_of(pair_views(pairs@.take(i as int))),
            decreases pairs@.len() - i,
        {
            result.insert(pairs[i].0.clone(), pairs[i].1);
            proof {
                let longer = pair_views(pairs@.take(i + 1));
                assert(longer.drop_last() =~= pair_views(pairs@.take(i as int)));
            }
            i += 1;
        }
        assert(pairs@.take(i as int) =~= pairs@);
        result
    }
}

/// Two lists with the same entries are the same map.
proof fn lemma_same_entries<V>(a: Seq<(String, V)>, b: Seq<(String, V)>)
    requires
        distinct(a),
        distinct(b),
        forall|i: int| 0 <= i < a.len() ==> b.contains(#[trigger] a[i]),
        forall|i: int| 0 <= i < b.len() ==> a.contains(#[trigger] b[i]),
    ensures
        as_map(a) == as_map(b),
{
}

impl<V> View for TextMap<V> {
    type V = Map<Seq<char>, V>;

    closed spec fn view(&self) -> Map<Seq<char>, V> {
        as_map(self.entries@)
    }
}

} // verus!
