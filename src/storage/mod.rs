//! The storage capability interface and its backends.

pub mod in_memory;
pub mod payload;
pub mod s3;

pub use in_memory::Store as InMemoryStore;
pub use s3::Store as S3Store;

use bytes::Bytes;
use payload::{bytes_view, Upload};
use vstd::prelude::*;

verus! {

/// Why a storage operation did not complete.
#[derive(Clone, Copy, Debug, PartialEq, Eq, Structural)]
pub enum StorageError {
    /// A chunk of a value failed to arrive or to leave.
    TransferFailure,
    /// The value grew past the largest size that a store accepts.
    PayloadTooLarge,
    /// The key cannot be mapped to an object name.
    InvalidKey,
    /// The backend does not offer this operation.
    UnsupportedOperation,
}

/// What a store holds after a write of `v` under `k`: an entry that is
/// already there is never replaced.
pub open spec fn put_once(
    m: Map<Seq<char>, Seq<u8>>,
    k: Seq<char>,
    v: Seq<u8>,
) -> Map<Seq<char>, Seq<u8>> {
    if m.contains_key(k) {
        m
    } else {
        m.insert(k, v)
    }
}

/// `p` is a prefix of `s`.
pub open spec fn has_prefix(s: Seq<char>, p: Seq<char>) -> bool {
    p.len() <= s.len() && s.subrange(0, p.len() as int) == p
}

/// A value written under a key that was absent is the value read back.
pub proof fn lemma_round_trip(m: Map<Seq<char>, Seq<u8>>, k: Seq<char>, v: Seq<u8>)
    requires
        !m.contains_key(k),
    ensures
        put_once(m, k, v).contains_key(k),
        put_once(m, k, v)[k] == v,
{
}

/// Once a key holds a value, a second write under it changes nothing: the
/// first value is still the one read back.
pub proof fn lemma_write_once(
    m: Map<Seq<char>, Seq<u8>>,
    k: Seq<char>,
    v1: Seq<u8>,
    v2: Seq<u8>,
)
    requires
        !m.contains_key(k),
    ensures
        put_once(put_once(m, k, v1), k, v2) == put_once(m, k, v1),
        put_once(put_once(m, k, v1), k, v2)[k] == v1,
{
}

/// A change that a completed call makes to a store's entries.
pub enum Change {
    Written(Seq<char>, Seq<u8>),
    Removed(Seq<char>),
    Cleared,
}

/// The entries after `c`, as `set`, `remove` and `clear` state it.
pub open spec fn apply_change(m: Map<Seq<char>, Seq<u8>>, c: Change) -> Map<Seq<char>, Seq<u8>> {
    match c {
        Change::Written(k, v) => put_once(m, k, v),
        Change::Removed(k) => m.remove(k),
        Change::Cleared => Map::empty(),
    }
}

/// The entries after the changes `cs`, in order, from `m`.
pub open spec fn replay(m: Map<Seq<char>, Seq<u8>>, cs: Seq<Change>) -> Map<Seq<char>, Seq<u8>>
    decreases cs.len(),
{
    if cs.len() == 0 {
        m
    } else {
        apply_change(replay(m, cs.drop_last()), cs.last())
    }
}

/// The latest change that touched `k` wrote it, with no removal or clearing
/// after; or nothing touched it and `m` held it.
pub open spec fn last_written(m: Map<Seq<char>, Seq<u8>>, cs: Seq<Change>, k: Seq<char>) -> bool
    decreases cs.len(),
{
    if cs.len() == 0 {
        m.contains_key(k)
    } else {
        match cs.last() {
            Change::Written(k2, _) => k2 == k || last_written(m, cs.drop_last(), k),
            Change::Removed(k2) => k2 != k && last_written(m, cs.drop_last(), k),
            Change::Cleared => false,
        }
    }
}

/// A key is present exactly when the latest change that touched it wrote it
/// and no removal has come since.
pub proof fn lemma_existence(m: Map<Seq<char>, Seq<u8>>, cs: Seq<Change>, k: Seq<char>)
    ensures
        replay(m, cs).contains_key(k) == last_written(m, cs, k),
    decreases cs.len(),
{
    if cs.len() > 0 {
        lemma_existence(m, cs.drop_last(), k);
    }
}

/// The capability that every backend offers: entries from keys to byte
/// values, written once.
pub trait Storage {
    spec fn well_formed(&self) -> bool;

    /// The entries held, by key.
    spec fn entries(&self) -> Map<Seq<char>, Seq<u8>>;

    /// The value stored under `key`, or `None` when the key is absent.
    fn get(&self, key: &str) -> (r: Option<Bytes>)
        requires
            self.well_formed(),
        ensures
            r is Some <==> self.entries().contains_key(key@),
            r is Some ==> bytes_view(r->Some_0) == self.entries()[key@],
    ;

    /// Stores the whole upload under `key`, unless the key is already
    /// present, in which case the call succeeds and changes nothing. An
    /// upload that ended in an error stores nothing and returns that error.
    fn set(&mut self, key: &str, value: Upload) -> (r: Result<(), StorageError>)
        requires
            old(self).well_formed(),
        ensures
            final(self).well_formed(),
            match value.failure() {
                Some(e) => r == Err::<(), StorageError>(e) && final(self).entries() == old(
                    self,
                ).entries(),
                None => r is Ok && final(self).entries() == put_once(
                    old(self).entries(),
                    key@,
                    value.received(),
                ),
            },
    ;

    /// Drops the entry under `key`, if there is one.
    fn remove(&mut self, key: &str)
        requires
            old(self).well_formed(),
        ensures
            final(self).well_formed(),
            final(self).entries() == old(self).entries().remove(key@),
    ;

    /// Every stored key that starts with `prefix`, each once, in no
    /// particular order.
    fn list(&self, prefix: &str) -> (r: Vec<String>)
        requires
            self.well_formed(),
        ensures
            forall|i: int|
                0 <= i < r@.len() ==> #[trigger] self.entries().contains_key(r@[i]@) && has_prefix(
                    r@[i]@,
                    prefix@,
                ),
            forall|k: Seq<char>|
                #![trigger self.entries().contains_key(k)]
                self.entries().contains_key(k) && has_prefix(k, prefix@) ==> exists|i: int|
                    0 <= i < r@.len() && r@[i]@ == k,
            forall|i: int, j: int| 0 <= i < j < r@.len() ==> r@[i]@ != r@[j]@,
    ;

    /// Drops every entry.
    fn clear(&mut self)
        requires
            old(self).well_formed(),
        ensures
            final(self).well_formed(),
            final(self).entries() == Map::<Seq<char>, Seq<u8>>::empty(),
    ;

    /// Whether an entry is stored under `key`. Without a cheaper probe of its
    /// own a backend answers by a `get` whose value is dropped.
    fn has(&self, key: &str) -> (r: bool)
        requires
            self.well_formed(),
        ensures
            r == self.entries().contains_key(key@),
    {
        self.get(key).is_some()
    }
}

} // verus!
