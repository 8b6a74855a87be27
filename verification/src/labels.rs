//! Small maps from text to text, as they are used for labels and
//! annotations.

use vstd::prelude::*;
use vstd::string::*;

verus! {

/// A map from text to text.
///
/// The view of the map is the mapping from the text of each key to the text
/// of its value.
#[derive(Debug)]
pub struct Labels {
    entries: Vec<(String, String)>,
}

spec fn has_key(entries: Seq<(String, String)>, key: Seq<char>) -> bool {
    exists|i: int| 0 <= i < entries.len() && (#[trigger] entries[i]).0@ == key
}

spec fn index_of(entries: Seq<(String, String)>, key: Seq<char>) -> int {
    choose|i: int| 0 <= i < entries.len() && (#[trigger] entries[i]).0@ == key
}

spec fn mapping(entries: Seq<(String, String)>) -> Map<Seq<char>, Seq<char>> {
    Map::new(
        |key: Seq<char>| has_key(entries, key),
        |key: Seq<char>| entries[index_of(entries, key)].1@,
    )
}

spec fn distinct(entries: Seq<(String, String)>) -> bool {
    forall|i: int, j: int|
        0 <= i < j < entries.len() ==> (#[trigger] entries[i]).0@ != (#[trigger] entries[j]).0@
}

proof fn lemma_entry_at(entries: Seq<(String, String)>, i: int)
    requires
        distinct(entries),
        0 <= i < entries.len(),
    ensures
        mapping(entries).contains_key(entries[i].0@),
        mapping(entries)[entries[i].0@] == entries[i].1@,
{
    let key = entries[i].0@;
    assert(has_key(entries, key));
    let j = index_of(entries, key);
    assert(entries[j].0@ == key);
    if i < j {
        assert(entries[i].0@ != entries[j].0@);
    }
    if j < i {
        assert(entries[j].0@ != entries[i].0@);
    }
}

proof fn lemma_update(entries: Seq<(String, String)>, i: int, entry: (String, String))
    requires
        distinct(entries),
        0 <= i < entries.len(),
        entry.0@ == entries[i].0@,
    ensures
        distinct(entries.update(i, entry)),
        mapping(entries.update(i, entry)) == mapping(entries).insert(entry.0@, entry.1@),
{
    let after = entries.update(i, entry);
    assert forall|a: int, b: int| 0 <= a < b < after.len() implies (#[trigger] after[a]).0@ != (
    #[trigger] after[b]).0@ by {
        assert(entries[a].0@ != entries[b].0@);
    }
    let expected = mapping(entries).insert(entry.0@, entry.1@);
    assert forall|key: Seq<char>| mapping(after).contains_key(key) <==> expected.contains_key(
        key,
    ) by {
        if has_key(after, key) {
            let j = index_of(after, key);
            assert(entries[j].0@ == key);
        }
        if has_key(entries, key) {
            let j = index_of(entries, key);
            assert(after[j].0@ == key);
        }
        if key == entry.0@ {
            assert(after[i].0@ == key);
        }
    }
    assert forall|key: Seq<char>| mapping(after).contains_key(key) implies mapping(after)[key]
        == expected[key] by {
        let j = index_of(after, key);
        lemma_entry_at(after, j);
        if j != i {
            assert(entries[j] == after[j]);
            lemma_entry_at(entries, j);
        }
    }
    assert(mapping(after) =~= expected);
}

proof fn lemma_push(entries: Seq<(String, String)>, entry: (String, String))
    requires
        distinct(entries),
        !has_key(entries, entry.0@),
    ensures
        distinct(entries.push(entry)),
        mapping(entries.push(entry)) == mapping(entries).insert(entry.0@, entry.1@),
{
    let after = entries.push(entry);
    assert forall|a: int, b: int| 0 <= a < b < after.len() implies (#[trigger] after[a]).0@ != (
    #[trigger] after[b]).0@ by {
        if b < entries.len() {
            assert(entries[a].0@ != entries[b].0@);
        } else {
            assert(entries[a].0@ != entry.0@);
        }
    }
    let expected = mapping(entries).insert(entry.0@, entry.1@);
    assert forall|key: Seq<char>| mapping(after).contains_key(key) <==> expected.contains_key(
        key,
    ) by {
        if has_key(after, key) {
            let j = index_of(after, key);
            if j < entries.len() {
                assert(entries[j].0@ == key);
            }
        }
        if has_key(entries, key) {
            let j = index_of(entries, key);
            assert(after[j].0@ == key);
        }
        if key == entry.0@ {
            assert(after[entries.len() as int].0@ == key);
        }
    }
    assert forall|key: Seq<char>| mapping(after).contains_key(key) implies mapping(after)[key]
        == expected[key] by {
        let j = index_of(after, key);
        lemma_entry_at(after, j);
        if j < entries.len() {
            assert(entries[j] == after[j]);
            lemma_entry_at(entries, j);
        }
    }
    assert(mapping(after) =~= expected);
}

fn find(entries: &Vec<(String, String)>, key: &str) -> (found: Option<usize>)
    ensures
        match found {
            Some(i) => i < entries@.len() && entries@[i as int].0@ == key@,
            None => !has_key(entries@, key@),
        },
{
    let wanted = String::from_str(key);
    let mut i: usize = 0;
    while i < entries.len()
        invariant
            i <= entries@.len(),
            wanted@ == key@,
            forall|j: int| 0 <= j < i ==> (#[trigger] entries@[j]).0@ != key@,
        decreases entries@.len() - i,
    {
        if entries[i].0 == wanted {
            return Some(i);
        }
        i += 1;
    }
    None
}

impl View for Labels {
    type V = Map<Seq<char>, Seq<char>>;

    closed spec fn view(&self) -> Map<Seq<char>, Seq<char>> {
        mapping(self.entries@)
    }
}

impl Labels {
    #[verifier::type_invariant]
    spec fn well_formed(self) -> bool {
        distinct(self.entries@)
    }

    /// The empty map.
    pub fn new() -> (labels: Labels)
        ensures
            labels@ == Map::<Seq<char>, Seq<char>>::empty(),
    {
        let labels = Labels { entries: Vec::new() };
        assert(mapping(labels.entries@) =~= Map::empty());
        labels
    }

    /// Maps `key` to `value`, in place of what it was mapped to before.
    pub fn insert(&mut self, key: String, value: String)
        ensures
            final(self)@ == old(self)@.insert(key@, value@),
    {
        proof {
            use_type_invariant(&*self);
        }
        let found = find(&self.entries, key.as_str());
        let mut entries: Vec<(String, String)> = Vec::new();
        core::mem::swap(&mut self.entries, &mut entries);
        match found {
            Some(i) => {
                proof {
                    lemma_update(entries@, i as int, (key, value));
                }
                entries.set(i, (key, value));
            },
            None => {
                proof {
                    lemma_push(entries@, (key, value));
                }
                entries.push((key, value));
            },
        }
        core::mem::swap(&mut self.entries, &mut entries);
    }

    /// What `key` is mapped to, if it is mapped.
    pub fn get(&self, key: &str) -> (value: Option<&String>)
        ensures
            match value {
                Some(value) => self@.contains_key(key@) && self@[key@] == value@,
                None => !self@.contains_key(key@),
            },
    {
        proof {
            use_type_invariant(self);
        }
        match find(&self.entries, key) {
            Some(i) => {
                proof {
                    lemma_entry_at(self.entries@, i as int);
                }
                Some(&self.entries[i].1)
            },
            None => None,
        }
    }

    /// The pairs of the map, each key once, in no particular order.
    pub fn entries(&self) -> (entries: &Vec<(String, String)>)
        ensures
            forall|i: int|
                0 <= i < entries@.len() ==> self@.contains_key((#[trigger] entries@[i]).0@)
                    && self@[entries@[i].0@] == entries@[i].1@,
            forall|key: Seq<char>|
                self@.contains_key(key) ==> exists|i: int|
                    0 <= i < entries@.len() && (#[trigger] entries@[i]).0@ == key,
            forall|i: int, j: int|
                0 <= i < j < entries@.len() ==> (#[trigger] entries@[i]).0@ != (
                #[trigger] entries@[j]).0@,
    {
        proof {
            use_type_invariant(self);
            assert forall|i: int| 0 <= i < self.entries@.len() implies self@.contains_key(
                (#[trigger] self.entries@[i]).0@,
            ) && self@[self.entries@[i].0@] == self.entries@[i].1@ by {
                lemma_entry_at(self.entries@, i);
            }
        }
        &self.entries
    }
}

impl Clone for Labels {
    /// A map with the same pairs.
    fn clone(&self) -> (copy: Labels)
        ensures
            copy@ == self@,
    {
        let entries = self.entries();
        let mut copy = Labels::new();
        let mut i: usize = 0;
        while i < entries.len()
            invariant
                i <= entries@.len(),
                forall|j: int|
                    0 <= j < entries@.len() ==> self@.contains_key((#[trigger] entries@[j]).0@)
                        && self@[entries@[j].0@] == entries@[j].1@,
                forall|key: Seq<char>|
                    self@.contains_key(key) ==> exists|j: int|
                        0 <= j < entries@.len() && (#[trigger] entries@[j]).0@ == key,
                forall|key: Seq<char>|
                    copy@.contains_key(key) <==> exists|j: int|
                        0 <= j < i && (#[trigger] entries@[j]).0@ == key,
                forall|key: Seq<char>| copy@.contains_key(key) ==> copy@[key] == self@[key],
            decreases entries@.len() - i,
        {
            let ghost before = copy@;
            copy.insert(entries[i].0.clone(), entries[i].1.clone());
            proof {
                let added = entries@[i as int].0@;
                assert forall|key: Seq<char>| copy@.contains_key(key) implies exists|j: int|
                    0 <= j < i + 1 && (#[trigger] entries@[j]).0@ == key by {
                    if key == added {
                        assert(entries@[i as int].0@ == key);
                    } else {
                        assert(before.contains_key(key));
                        let j = choose|j: int| 0 <= j < i && (#[trigger] entries@[j]).0@ == key;
                        assert(entries@[j].0@ == key);
                    }
                }
            }
            i += 1;
        }
        assert(copy@ =~= self@);
        copy
    }
}

} // verus!
