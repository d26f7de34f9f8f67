//! Entries found by their name; a name occurs at most once.
use vstd::prelude::*;

verus! {

/// The names of a list of entries, in order.
pub open spec fn names_of<T>(entries: Seq<(String, T)>) -> Seq<Seq<char>> {
    entries.map_values(|e: (String, T)| e.0@)
}

/// A list of entries with distinct names, read as a map from name to item.
pub open spec fn map_of<T>(entries: Seq<(String, T)>) -> Map<Seq<char>, T> {
    Map::new(
        |k: Seq<char>| names_of(entries).contains(k),
        |k: Seq<char>| entries[names_of(entries).index_of(k)].1,
    )
}

/// Replacing the entry under a present name keeps the names and updates the map.
proof fn lemma_replace<T>(entries: Seq<(String, T)>, i: int, key: String, value: T)
    requires
        names_of(entries).no_duplicates(),
        0 <= i < entries.len(),
        names_of(entries)[i] == key@,
    ensures
        names_of(entries.update(i, (key, value))) == names_of(entries),
        map_of(entries.update(i, (key, value))) == map_of(entries).insert(key@, value),
{
    let n = names_of(entries);
    let e2 = entries.update(i, (key, value));
    assert(names_of(e2) =~= n);
    assert forall|x: Seq<char>| #![trigger map_of(e2).contains_key(x)]
        map_of(e2).contains_key(x) implies map_of(e2)[x] == map_of(entries).insert(key@, value)[x] by {
        let j = n.index_of(x);
        assert(n[j] == x);
        if x == key@ {
            assert(j == i);
        }
    }
    assert(map_of(e2) =~= map_of(entries).insert(key@, value));
}

/// Adding an entry under an absent name keeps the names distinct and extends the map.
proof fn lemma_push<T>(entries: Seq<(String, T)>, key: String, value: T)
    requires
        names_of(entries).no_duplicates(),
        !names_of(entries).contains(key@),
    ensures
        names_of(entries.push((key, value))).no_duplicates(),
        map_of(entries.push((key, value))) == map_of(entries).insert(key@, value),
{
    let n = names_of(entries);
    let e2 = entries.push((key, value));
    let n2 = names_of(e2);
    assert(n2 =~= n.push(key@));
    assert forall|a: int, b: int| 0 <= a < n2.len() && 0 <= b < n2.len() && a != b implies n2[a] != n2[b] by {
        if a == n2.len() - 1 {
            assert(n[b] == n2[b]);
        } else if b == n2.len() - 1 {
            assert(n[a] == n2[a]);
        }
    }
    assert forall|x: Seq<char>| #![trigger map_of(e2).contains_key(x)]
        map_of(e2).contains_key(x) implies map_of(e2)[x] == map_of(entries).insert(key@, value)[x] by {
        let j = n2.index_of(x);
        assert(n2[j] == x);
        if x == key@ {
            assert(n2[n2.len() - 1] == key@);
        } else {
            assert(n.contains(x)) by {
                assert(n[j] == x);
            }
            let oj = n.index_of(x);
            assert(n2[oj] == x);
        }
    }
    assert forall|x: Seq<char>| n.contains(x) implies #[trigger] n2.contains(x) by {
        let oj = n.index_of(x);
        assert(n2[oj] == x);
    }
    assert(n2.contains(key@)) by {
        assert(n2[n2.len() - 1] == key@);
    }
    assert(map_of(e2) =~= map_of(entries).insert(key@, value));
}

/// Entries keyed by text. Inserting under a name that is present replaces its entry.
pub struct Table<T> {
    entries: Vec<(String, T)>,
}

impl<T> Table<T> {
    #[verifier::type_invariant]
    closed spec fn names_distinct(&self) -> bool {
        names_of(self.entries@).no_duplicates()
    }

    /// The entries, as a map from name to item.
    pub closed spec fn view(&self) -> Map<Seq<char>, T> {
        map_of(self.entries@)
    }

    /// Creates an empty table.
    pub fn new() -> (t: Self)
        ensures
            t.view() == Map::<Seq<char>, T>::empty(),
    {
        let t = Table { entries: Vec::new() };
        assert(t.view() =~= Map::<Seq<char>, T>::empty());
        t
    }

    /// Finds the position of a name, if it is present.
    fn position(entries: &Vec<(String, T)>, key: &String) -> (r: Option<usize>)
        ensures
            match r {
                Some(i) => i < entries@.len() && names_of(entries@)[i as int] == key@,
                None => !names_of(entries@).contains(key@),
            },
    {
        let mut i: usize = 0;
        while i < entries.len()
            invariant
                i <= entries@.len(),
                forall|j: int| 0 <= j < i ==> names_of(entries@)[j] != key@,
            decreases entries@.len() - i,
        {
            if entries[i].0 == *key {
                return Some(i);
            }
            i = i + 1;
        }
        None
    }

    /// The number of names present.
    pub fn len(&self) -> (r: usize)
        ensures
            r == self.view().len(),
    {
        proof {
            use_type_invariant(self);
            let n = names_of(self.entries@);
            n.unique_seq_to_set();
            assert(self.view().dom() =~= n.to_set());
        }
        self.entries.len()
    }

    /// Gets the item under a name, if the name is present.
    pub fn get(&self, key: &str) -> (r: Option<&T>)
        ensures
            match r {
                Some(v) => self.view().contains_key(key@) && *v == self.view()[key@],
                None => !self.view().contains_key(key@),
            },
    {
        proof {
            use_type_invariant(self);
        }
        let k = String::from_str(key);
        match Self::position(&self.entries, &k) {
            Some(i) => {
                proof {
                    let n = names_of(self.entries@);
                    assert(n.contains(key@));
                    assert(n[n.index_of(key@)] == key@);
                }
                Some(&self.entries[i].1)
            },
            None => None,
        }
    }

    /// Puts an item under a name, replacing the item that was there.
    pub fn insert(&mut self, key: String, value: T)
        ensures
            final(self).view() == old(self).view().insert(key@, value),
    {
        proof {
            use_type_invariant(&*self);
        }
        let mut entries: Vec<(String, T)> = Vec::new();
        std::mem::swap(&mut entries, &mut self.entries);
        let ghost before = entries@;
        let ghost k = key@;
        match Self::position(&entries, &key) {
            Some(i) => {
                proof {
                    lemma_replace(before, i as int, key, value);
                }
                entries.set(i, (key, value));
            },
            None => {
                proof {
                    lemma_push(before, key, value);
                }
                entries.push((key, value));
            },
        }
        self.entries = entries;
    }
}

} // verus!
