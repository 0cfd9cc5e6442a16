//! Maps whose keys are byte strings.
use vstd::prelude::*;

verus! {

/// Whether two byte strings are the same.
fn same_bytes(a: &Vec<u8>, b: &Vec<u8>) -> (same: bool)
    ensures
        same == (a@ == b@),
{
    if a.len() != b.len() {
        return false;
    }
    let mut i: usize = 0;
    while i < a.len()
        invariant
            i <= a.len(),
            a.len() == b.len(),
            forall|k: int| 0 <= k < i ==> a@[k] == b@[k],
        decreases a.len() - i,
    {
        if a[i] != b[i] {
            return false;
        }
        i = i + 1;
    }
    assert(a@ =~= b@);
    true
}

/// A map from byte strings to values.
#[derive(Debug)]
pub struct ByteMap<V> {
    entries: Vec<(Vec<u8>, V)>,
}

impl<V> ByteMap<V> {
    /// No key occurs twice.
    pub closed spec fn wf(&self) -> bool {
        forall|i: int, j: int|
            0 <= i < j < self.entries@.len() ==> (#[trigger] self.entries@[i]).0@ != (
            #[trigger] self.entries@[j]).0@
    }

    spec fn holds(&self, key: Seq<u8>, i: int) -> bool {
        0 <= i < self.entries@.len() && self.entries@[i].0@ == key
    }

    /// The map without entries.
    pub fn new() -> (map: ByteMap<V>)
        ensures
            map.wf(),
            map@ == Map::<Seq<u8>, V>::empty(),
    {
        let map = ByteMap { entries: Vec::new() };
        assert(map@ =~= Map::<Seq<u8>, V>::empty());
        map
    }

    /// Where the entry with this key stands.
    fn find(&self, key: &Vec<u8>) -> (found: Option<usize>)
        ensures
            match found {
                Some(i) => self.holds(key@, i as int),
                None => forall|i: int| !self.holds(key@, i),
            },
    {
        let mut i: usize = 0;
        while i < self.entries.len()
            invariant
                i <= self.entries.len(),
                forall|k: int| 0 <= k < i ==> !self.holds(key@, k),
            decreases self.entries.len() - i,
        {
            if same_bytes(&self.entries[i].0, key) {
                return Some(i);
            }
            i = i + 1;
        }
        None
    }

    /// The value under `key`.
    pub fn get(&self, key: &Vec<u8>) -> (value: Option<&V>)
        requires
            self.wf(),
        ensures
            match value {
                Some(value) => self@.contains_key(key@) && *value == self@[key@],
                None => !self@.contains_key(key@),
            },
    {
        match self.find(key) {
            Some(i) => {
                proof {
                    let j = choose|j: int| self.holds(key@, j);
                    assert(i < j ==> self.entries@[i as int].0@ != self.entries@[j].0@);
                    assert(j < i ==> self.entries@[j].0@ != self.entries@[i as int].0@);
                }
                Some(&self.entries[i].1)
            },
            None => None,
        }
    }

    /// Puts `value` under `key`, in place of what was there.
    pub fn insert(&mut self, key: Vec<u8>, value: V)
        requires
            old(self).wf(),
        ensures
            final(self).wf(),
            final(self)@ == old(self)@.insert(key@, value),
    {
        let ghost before = *self;
        let ghost name = key@;
        let ghost at: int;
        match self.find(&key) {
            Some(i) => {
                self.entries.set(i, (key, value));
                proof {
                    at = i as int;
                }
            },
            None => {
                proof {
                    at = self.entries@.len() as int;
                    assert forall|i: int| 0 <= i < at implies (#[trigger] self.entries@[i]).0@
                        != name by {
                        assert(!self.holds(name, i));
                    }
                }
                self.entries.push((key, value));
            },
        }
        proof {
            assert(self.holds(name, at));
            assert forall|k: Seq<u8>, i: int| k != name && 0 <= i < before.entries@.len() implies (
            #[trigger] before.holds(k, i)) == self.holds(k, i) by {}
            assert(self.wf());
            assert forall|k: Seq<u8>| #[trigger]
                self@.contains_key(k) == before@.insert(name, value).contains_key(k) by {
                if k != name {
                    if exists|i: int| before.holds(k, i) {
                        let i = choose|i: int| before.holds(k, i);
                        assert(self.holds(k, i));
                    }
                    if exists|i: int| self.holds(k, i) {
                        let i = choose|i: int| self.holds(k, i);
                        assert(before.holds(k, i));
                    }
                }
            }
            assert forall|k: Seq<u8>| self@.contains_key(k) implies #[trigger] self@[k]
                == before@.insert(name, value)[k] by {
                let j = choose|j: int| self.holds(k, j);
                if k == name {
                    assert(at < j ==> self.entries@[at].0@ != self.entries@[j].0@);
                    assert(j < at ==> self.entries@[j].0@ != self.entries@[at].0@);
                } else {
                    assert(before.holds(k, j));
                    let i = choose|i: int| before.holds(k, i);
                    assert(i < j ==> before.entries@[i].0@ != before.entries@[j].0@);
                    assert(j < i ==> before.entries@[j].0@ != before.entries@[i].0@);
                }
            }
            assert(self@ =~= before@.insert(name, value));
        }
    }
}

impl<V> View for ByteMap<V> {
    type V = Map<Seq<u8>, V>;

    /// The value under each key.
    closed spec fn view(&self) -> Map<Seq<u8>, V> {
        Map::new(
            |key: Seq<u8>| exists|i: int| self.holds(key, i),
            |key: Seq<u8>| self.entries@[choose|i: int| self.holds(key, i)].1,
        )
    }
}

} // verus!
