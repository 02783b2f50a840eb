//! A map from strings to values, kept as a list of entries.
use vstd::prelude::*;

verus! {

/// Whether no two entries have the same key.
pub open spec fn distinct_keys<V>(list: Seq<(String, V)>) -> bool {
    forall|i: int, j: int|
        0 <= i < j < list.len() ==> (#[trigger] list[i]).0@ != (#[trigger] list[j]).0@
}

/// Whether the entry at `i` has the key.
pub open spec fn keyed_at<V>(list: Seq<(String, V)>, key: Seq<char>, i: int) -> bool {
    0 <= i < list.len() && list[i].0@ == key
}

/// The map that a list of entries with distinct keys stands for.
pub open spec fn list_map<V>(list: Seq<(String, V)>) -> Map<Seq<char>, V> {
    Map::new(
        |key: Seq<char>| exists|i: int| keyed_at(list, key, i),
        |key: Seq<char>| list[choose|i: int| keyed_at(list, key, i)].1,
    )
}

/// What a key stands for is the value of the one entry that has it.
proof fn list_map_at<V>(list: Seq<(String, V)>, i: int)
    requires
        distinct_keys(list),
        0 <= i < list.len(),
    ensures
        list_map(list).contains_key(list[i].0@),
        list_map(list)[list[i].0@] == list[i].1,
{
    let key = list[i].0@;
    assert(keyed_at(list, key, i));
    let found = choose|k: int| keyed_at(list, key, k);
    assert(keyed_at(list, key, found));
    assert(found == i);
}

/// A map with string keys. A key occurs at most once.
#[derive(Debug)]
pub struct StringMap<V> {
    entries: Vec<(String, V)>,
}

impl<V> View for StringMap<V> {
    type V = Map<Seq<char>, V>;

    closed spec fn view(&self) -> Map<Seq<char>, V> {
        list_map(self.entries@)
    }
}

impl<V> StringMap<V> {
    #[verifier::type_invariant]
    spec fn well_formed(self) -> bool {
        distinct_keys(self.entries@)
    }

    /// An empty map.
    pub fn new() -> (map: Self)
        ensures
            map@ == Map::<Seq<char>, V>::empty(),
    {
        let map = StringMap { entries: Vec::new() };
        assert(map@ =~= Map::<Seq<char>, V>::empty());
        map
    }

    /// The entries, each key once.
    pub fn entries(&self) -> (list: &Vec<(String, V)>)
        ensures
            distinct_keys(list@),
            list_map(list@) == self@,
    {
        proof {
            use_type_invariant(self);
        }
        &self.entries
    }

    /// The value of a key.
    pub fn get(&self, key: &String) -> (value: Option<&V>)
        ensures
            match value {
                Some(value) => self@.contains_key(key@) && *value == self@[key@],
                None => !self@.contains_key(key@),
            },
    {
        proof {
            use_type_invariant(self);
        }
        let mut i: usize = 0;
        while i < self.entries.len()
            invariant
                i <= self.entries.len(),
                distinct_keys(self.entries@),
                forall|k: int| 0 <= k < i ==> (#[trigger] self.entries@[k]).0@ != key@,
            decreases self.entries.len() - i,
        {
            if self.entries[i].0 == *key {
                proof {
                    list_map_at(self.entries@, i as int);
                }
                return Some(&self.entries[i].1);
            }
            i += 1;
        }
        None
    }

    /// Gives a key a value, in place of the one it had, if any.
    pub fn insert(&mut self, key: String, value: V)
        ensures
            final(self)@ == old(self)@.insert(key@, value),
    {
        proof {
            use_type_invariant(&*self);
        }
        let mut list: Vec<(String, V)> = Vec::new();
        std::mem::swap(&mut list, &mut self.entries);
        let ghost before = list@;
        let mut i: usize = 0;
        while i < list.len() && !(list[i].0 == key)
            invariant
                i <= list.len(),
                list@ == before,
                forall|k: int| 0 <= k < i ==> (#[trigger] list@[k]).0@ != key@,
            decreases list.len() - i,
        {
            i += 1;
        }
        let ghost text = key@;
        if i < list.len() {
            list.set(i, (key, value));
        } else {
            list.push((key, value));
        }
        proof {
            let after = list@;
            assert(distinct_keys(after));
            assert forall|k: Seq<char>| #[trigger]
                list_map(after).contains_key(k) <==> list_map(before).insert(
                text,
                value,
            ).contains_key(k) by {
                if list_map(after).contains_key(k) && k != text {
                    let n = choose|n: int| keyed_at(after, k, n);
                    assert(keyed_at(before, k, n));
                }
                if list_map(before).contains_key(k) {
                    let n = choose|n: int| keyed_at(before, k, n);
                    assert(keyed_at(after, k, n));
                }
                if k == text {
                    assert(keyed_at(after, k, i as int));
                }
            }
            assert forall|k: Seq<char>| list_map(after).contains_key(k) implies #[trigger] list_map(
                after,
            )[k] == list_map(before).insert(text, value)[k] by {
                let n = choose|n: int| keyed_at(after, k, n);
                list_map_at(after, n);
                if k != text {
                    list_map_at(before, n);
                }
            }
            assert(list_map(after) =~= list_map(before).insert(text, value));
        }
        self.entries = list;
    }
}

} // verus!
