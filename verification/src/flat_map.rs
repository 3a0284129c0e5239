//! The flat key/value store that templates are rendered against: a mapping
//! from path-like string keys to string values, viewed in specifications as a
//! `Map<Seq<char>, Seq<char>>`.

use vstd::prelude::*;

verus! {

/// The map denoted by a sequence of key/value pairs, later pairs winning.
pub open spec fn map_of(entries: Seq<(String, String)>) -> Map<Seq<char>, Seq<char>>
    decreases entries.len(),
{
    if entries.len() == 0 {
        Map::empty()
    } else {
        map_of(entries.drop_last()).insert(entries.last().0@, entries.last().1@)
    }
}

/// No two pairs carry the same key text.
pub open spec fn keys_unique(entries: Seq<(String, String)>) -> bool {
    forall|i: int, j: int| 0 <= i < j < entries.len() ==> entries[i].0@ != entries[j].0@
}

/// A key is in the map exactly when some pair carries it.
pub proof fn lemma_map_of_contains(entries: Seq<(String, String)>, k: Seq<char>)
    ensures
        map_of(entries).contains_key(k) <==> (exists|i: int|
            0 <= i < entries.len() && entries[i].0@ == k),
    decreases entries.len(),
{
    if entries.len() > 0 {
        lemma_map_of_contains(entries.drop_last(), k);
        if entries.last().0@ == k {
            assert(entries[entries.len() - 1].0@ == k);
        } else if map_of(entries).contains_key(k) {
            let i = choose|i: int| 0 <= i < entries.drop_last().len()
                && entries.drop_last()[i].0@ == k;
            assert(entries[i].0@ == k);
        } else if exists|i: int| 0 <= i < entries.len() && entries[i].0@ == k {
            let i = choose|i: int| 0 <= i < entries.len() && entries[i].0@ == k;
            assert(entries.drop_last()[i].0@ == k);
        }
    }
}

/// With unique keys, the pair at index `i` gives the value of its key.
pub proof fn lemma_map_of_index(entries: Seq<(String, String)>, i: int)
    requires
        keys_unique(entries),
        0 <= i < entries.len(),
    ensures
        map_of(entries).contains_key(entries[i].0@),
        map_of(entries)[entries[i].0@] == entries[i].1@,
    decreases entries.len(),
{
    if i < entries.len() - 1 {
        assert(keys_unique(entries.drop_last()));
        lemma_map_of_index(entries.drop_last(), i);
        assert(entries.drop_last()[i] == entries[i]);
        assert(entries.last().0@ != entries[i].0@);
    }
}

/// A flat mapping from string keys to string values.  Keys are unique; a
/// value written under an existing key replaces the old one.
pub struct FlatMap {
    entries: Vec<(String, String)>,
}

impl View for FlatMap {
    type V = Map<Seq<char>, Seq<char>>;

    closed spec fn view(&self) -> Map<Seq<char>, Seq<char>> {
        map_of(self.entries@)
    }
}

impl FlatMap {
    #[verifier::type_invariant]
    spec fn wf(self) -> bool {
        keys_unique(self.entries@)
    }

    /// The empty map.
    pub fn new() -> (r: FlatMap)
        ensures
            r@ == Map::<Seq<char>, Seq<char>>::empty(),
    {
        FlatMap { entries: Vec::new() }
    }

    /// Looks `key` up.
    pub fn get<'a>(&'a self, key: &String) -> (r: Option<&'a String>)
        ensures
            match r {
                Option::Some(v) => self@.contains_key(key@) && v@ == self@[key@],
                Option::None => !self@.contains_key(key@),
            },
    {
        proof {
            use_type_invariant(&*self);
        }
        let n = self.entries.len();
        let mut idx: usize = 0;
        while idx < n
            invariant
                n == self.entries@.len(),
                idx <= n,
                keys_unique(self.entries@),
                self@ == map_of(self.entries@),
                forall|j: int| 0 <= j < idx ==> self.entries@[j].0@ != key@,
            decreases n - idx,
        {
            if self.entries[idx].0 == *key {
                proof {
                    lemma_map_of_index(self.entries@, idx as int);
                }
                return Option::Some(&self.entries[idx].1);
            }
            idx += 1;
        }
        proof {
            lemma_map_of_contains(self.entries@, key@);
        }
        Option::None
    }

    /// Writes `value` under `key`, replacing any earlier value.
    pub fn insert(&mut self, key: &str, value: &str)
        ensures
            final(self)@ == old(self)@.insert(key@, value@),
    {
        proof {
            use_type_invariant(&*self);
        }
        let ghost old_entries = self.entries@;
        let mut entries: Vec<(String, String)> = Vec::new();
        std::mem::swap(&mut entries, &mut self.entries);
        let pair = (key.to_owned(), value.to_owned());
        let n = entries.len();
        let mut idx: usize = 0;
        let mut found: Option<usize> = Option::None;
        while idx < n
            invariant
                n == entries@.len(),
                idx <= n,
                pair.0@ == key@,
                match found {
                    Option::Some(i) => i < idx && entries@[i as int].0@ == key@,
                    Option::None => forall|j: int| 0 <= j < idx ==> entries@[j].0@ != key@,
                },
            decreases n - idx,
        {
            if found.is_none() && entries[idx].0 == pair.0 {
                found = Option::Some(idx);
            }
            idx += 1;
        }
        match found {
            Option::Some(i) => {
                entries.set(i, pair);
                proof {
                    lemma_insert_existing(old_entries, i as int, entries@[i as int]);
                    assert(entries@ =~= old_entries.update(i as int, entries@[i as int]));
                    assert(map_of(entries@) =~= map_of(old_entries).insert(key@, value@));
                }
            },
            Option::None => {
                entries.push(pair);
                proof {
                    assert(entries@.drop_last() =~= old_entries);
                    lemma_map_of_contains(old_entries, key@);
                    assert(keys_unique(entries@)) by {
                        assert(forall|j: int|
                            0 <= j < old_entries.len() ==> entries@[j] == old_entries[j]);
                    }
                }
            },
        }
        self.entries = entries;
    }

    /// Writes every pair of `data` into `self`; on a shared key, the value of
    /// `data` wins.
    pub fn insert_all(&mut self, data: &FlatMap)
        ensures
            final(self)@ == old(self)@.union_prefer_right(data@),
    {
        proof {
            use_type_invariant(data);
        }
        let n = data.entries.len();
        let mut idx: usize = 0;
        while idx < n
            invariant
                n == data.entries@.len(),
                idx <= n,
                keys_unique(data.entries@),
                data@ == map_of(data.entries@),
                self@ == old(self)@.union_prefer_right(map_of(data.entries@.take(idx as int))),
            decreases n - idx,
        {
            let ghost prefix = data.entries@.take(idx as int);
            self.insert(data.entries[idx].0.as_str(), data.entries[idx].1.as_str());
            proof {
                let next = data.entries@.take(idx as int + 1);
                assert(next.drop_last() =~= prefix);
                assert(map_of(next) == map_of(prefix).insert(
                    data.entries@[idx as int].0@,
                    data.entries@[idx as int].1@,
                ));
                assert(self@ =~= old(self)@.union_prefer_right(map_of(next)));
            }
            idx += 1;
        }
        proof {
            assert(data.entries@.take(n as int) =~= data.entries@);
        }
    }
}

/// Replacing the pair at `i` by one with the same key updates the map at that
/// key and keeps keys unique.
proof fn lemma_insert_existing(entries: Seq<(String, String)>, i: int, pair: (String, String))
    requires
        keys_unique(entries),
        0 <= i < entries.len(),
        pair.0@ == entries[i].0@,
    ensures
        keys_unique(entries.update(i, pair)),
        map_of(entries.update(i, pair)) =~= map_of(entries).insert(pair.0@, pair.1@),
    decreases entries.len(),
{
    let upd = entries.update(i, pair);
    assert(forall|j: int| 0 <= j < entries.len() && j != i ==> upd[j] == entries[j]);
    if i == entries.len() - 1 {
        assert(upd.drop_last() =~= entries.drop_last());
    } else {
        assert(keys_unique(entries.drop_last()));
        lemma_insert_existing(entries.drop_last(), i, pair);
        assert(upd.drop_last() =~= entries.drop_last().update(i, pair));
        assert(entries.last().0@ != pair.0@);
        assert(upd.last() == entries.last());
    }
}

} // verus!
