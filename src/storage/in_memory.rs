//! A store held in process memory: no persistence across restarts.

use super::payload::{bytes_view, Upload};
use super::{has_prefix, put_once, Storage, StorageError};
use crate::text::starts_with;
use bytes::Bytes;
use vstd::prelude::*;
use vstd::string::StringExecFns;

verus! {

/// Entries from keys to byte values, kept in a vector whose keys are
/// pairwise distinct. Lookups scan the vector. vstd's `HashMap`
/// specifications hold only for key types that it knows to obey its key
/// model (integers, `bool`, and boxes of them). `String` is not one of them,
/// and claiming it would take an assumption, so a hash map keyed by `String`
/// would come with no proof of what it holds.
pub struct Store {
    data: Vec<(String, Bytes)>,
    model: Ghost<Map<Seq<char>, Seq<u8>>>,
}

impl Store {
    /// An empty store.
    pub fn new() -> (r: Store)
        ensures
            r.well_formed(),
            r.entries() == Map::<Seq<char>, Seq<u8>>::empty(),
    {
        Store { data: Vec::new(), model: Ghost(Map::empty()) }
    }

    /// The position of `key` among the entries, if it is there.
    fn find(&self, key: &String) -> (r: Option<usize>)
        requires
            self.well_formed(),
        ensures
            match r {
                Some(i) => i < self.data@.len() && self.data@[i as int].0@ == key@,
                None => !self.entries().contains_key(key@),
            },
    {
        let mut i: usize = 0;
        while i < self.data.len()
            invariant
                self.well_formed(),
                i <= self.data@.len(),
                forall|j: int| 0 <= j < i ==> #[trigger] self.data@[j].0@ != key@,
            decreases self.data@.len() - i,
        {
            if self.data[i].0 == *key {
                return Some(i);
            }
            i = i + 1;
        }
        None
    }
}

impl Storage for Store {
    closed spec fn well_formed(&self) -> bool {
        &&& forall|i: int, j: int|
            0 <= i < j < self.data@.len() ==> #[trigger] self.data@[i].0@
                != #[trigger] self.data@[j].0@
        &&& forall|i: int|
            0 <= i < self.data@.len() ==> #[trigger] self.model@.contains_key(self.data@[i].0@)
                && self.model@[self.data@[i].0@] == bytes_view(self.data@[i].1)
        &&& forall|k: Seq<char>|
            #[trigger] self.model@.contains_key(k) ==> exists|i: int|
                0 <= i < self.data@.len() && self.data@[i].0@ == k
    }

    closed spec fn entries(&self) -> Map<Seq<char>, Seq<u8>> {
        self.model@
    }

    fn get(&self, key: &str) -> (r: Option<Bytes>) {
        let k = String::from_str(key);
        match self.find(&k) {
            Some(i) => {
                assert(self.model@.contains_key(self.data@[i as int].0@));
                Some(self.data[i].1.clone())
            },
            None => None,
        }
    }

    fn set(&mut self, key: &str, value: Upload) -> (r: Result<(), StorageError>) {
        let bytes = match value.finish() {
            Ok(b) => b,
            Err(e) => {
                return Err(e);
            },
        };
        let k = String::from_str(key);
        match self.find(&k) {
            Some(_) => Ok(()),
            None => {
                let ghost old_data = self.data@;
                let ghost v = bytes_view(bytes);
                self.data.push((k, bytes));
                self.model = Ghost(self.model@.insert(key@, v));
                assert forall|i: int| 0 <= i < self.data@.len() implies #[trigger] self.model@.contains_key(
                    self.data@[i].0@,
                ) && self.model@[self.data@[i].0@] == bytes_view(self.data@[i].1) by {
                    if i < old_data.len() {
                        assert(self.data@[i] == old_data[i]);
                    }
                }
                assert forall|k2: Seq<char>| #[trigger] self.model@.contains_key(k2) implies exists|i: int|
                    0 <= i < self.data@.len() && self.data@[i].0@ == k2 by {
                    if k2 == key@ {
                        assert(self.data@[old_data.len() as int].0@ == k2);
                    } else {
                        let i = choose|i: int| 0 <= i < old_data.len() && old_data[i].0@ == k2;
                        assert(self.data@[i] == old_data[i]);
                    }
                }
                Ok(())
            },
        }
    }

    fn remove(&mut self, key: &str) {
        let k = String::from_str(key);
        match self.find(&k) {
            Some(i) => {
                let ghost old_data = self.data@;
                let ghost old_model = self.model@;
                self.data.remove(i);
                self.model = Ghost(self.model@.remove(key@));
                assert forall|a: int, b: int|
                    0 <= a < b < self.data@.len() implies #[trigger] self.data@[a].0@
                    != #[trigger] self.data@[b].0@ by {
                    let oa = if a < i { a } else { a + 1 };
                    let ob = if b < i { b } else { b + 1 };
                    assert(self.data@[a] == old_data[oa]);
                    assert(self.data@[b] == old_data[ob]);
                }
                assert forall|j: int| 0 <= j < self.data@.len() implies #[trigger] self.model@.contains_key(
                    self.data@[j].0@,
                ) && self.model@[self.data@[j].0@] == bytes_view(self.data@[j].1) by {
                    let oj = if j < i { j } else { j + 1 };
                    assert(self.data@[j] == old_data[oj]);
                    assert(old_data[oj].0@ != old_data[i as int].0@);
                    assert(old_model.contains_key(old_data[oj].0@));
                }
                assert forall|k2: Seq<char>| #[trigger] self.model@.contains_key(k2) implies exists|j: int|
                    0 <= j < self.data@.len() && self.data@[j].0@ == k2 by {
                    assert(old_model.contains_key(k2));
                    let oj = choose|oj: int| 0 <= oj < old_data.len() && old_data[oj].0@ == k2;
                    assert(oj != i);
                    let j = if oj < i { oj } else { oj - 1 };
                    assert(self.data@[j] == old_data[oj]);
                }
            },
            None => {
                assert(self.model@.remove(key@) =~= self.model@);
            },
        }
    }

    fn list(&self, prefix: &str) -> (r: Vec<String>) {
        let mut out: Vec<String> = Vec::new();
        // positions in `data` of the keys gathered so far, in order
        let ghost mut from: Seq<int> = Seq::empty();
        let mut i: usize = 0;
        while i < self.data.len()
            invariant
                self.well_formed(),
                i <= self.data@.len(),
                from.len() == out@.len(),
                forall|a: int|
                    0 <= a < from.len() ==> 0 <= #[trigger] from[a] < i && out@[a]@
                        == self.data@[from[a]].0@ && has_prefix(out@[a]@, prefix@),
                forall|a: int, b: int| 0 <= a < b < from.len() ==> from[a] < from[b],
                forall|j: int|
                    0 <= j < i && has_prefix(#[trigger] self.data@[j].0@, prefix@) ==> exists|a: int|
                        0 <= a < from.len() && from[a] == j,
            decreases self.data@.len() - i,
        {
            if starts_with(self.data[i].0.as_str(), prefix) {
                out.push(self.data[i].0.clone());
                proof {
                    let ghost before = from;
                    from = from.push(i as int);
                    assert forall|j: int|
                        0 <= j < i + 1 && has_prefix(
                            #[trigger] self.data@[j].0@,
                            prefix@,
                        ) implies exists|a: int| 0 <= a < from.len() && from[a] == j by {
                        if j < i {
                            let a = choose|a: int| 0 <= a < before.len() && before[a] == j;
                            assert(from[a] == j);
                        } else {
                            assert(from[before.len() as int] == j);
                        }
                    }
                }
            }
            i = i + 1;
        }
        assert forall|a: int| 0 <= a < out@.len() implies #[trigger] self.entries().contains_key(
            out@[a]@,
        ) && has_prefix(out@[a]@, prefix@) by {
            assert(self.model@.contains_key(self.data@[from[a]].0@));
        }
        assert forall|a: int, b: int| 0 <= a < b < out@.len() implies out@[a]@ != out@[b]@ by {
            assert(from[a] < from[b]);
            assert(self.data@[from[a]].0@ != self.data@[from[b]].0@);
        }
        assert forall|k: Seq<char>|
            #![trigger self.entries().contains_key(k)]
            self.entries().contains_key(k) && has_prefix(k, prefix@) implies exists|a: int|
                0 <= a < out@.len() && out@[a]@ == k by {
            let j = choose|j: int| 0 <= j < self.data@.len() && self.data@[j].0@ == k;
            assert(has_prefix(self.data@[j].0@, prefix@));
            let a = choose|a: int| 0 <= a < from.len() && from[a] == j;
            assert(out@[a]@ == k);
        }
        out
    }

    fn clear(&mut self) {
        self.data.clear();
        self.model = Ghost(Map::empty());
    }

    fn has(&self, key: &str) -> (r: bool) {
        let k = String::from_str(key);
        self.find(&k).is_some()
    }
}

} // verus!
