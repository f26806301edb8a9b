//! The key logic of a store kept in a remote object bucket. The transfers
//! themselves are network I/O and are made by the caller, against the object
//! names computed here.

use super::StorageError;
use vstd::prelude::*;
use vstd::string::{StrSliceExecFns, StringExecFns};

verus! {

/// Where the last path segment of `k` begins: just past its last `/`, or at
/// the start when it has none.
pub open spec fn segment_start(k: Seq<char>) -> int
    decreases k.len(),
{
    if k.len() == 0 {
        0
    } else if k.last() == '/' {
        k.len() as int
    } else {
        segment_start(k.drop_last())
    }
}

/// The last path segment of `k`: the hash of a cache key.
pub open spec fn hash_segment(k: Seq<char>) -> Seq<char> {
    k.subrange(segment_start(k), k.len() as int)
}

/// The directories in front of the hash, each with its `/`.
pub open spec fn directory(k: Seq<char>) -> Seq<char> {
    k.subrange(0, segment_start(k))
}

/// The shard directory of `k`: its directories, then the first two characters
/// of its hash, then `/`.
pub open spec fn shard_of(k: Seq<char>) -> Seq<char> {
    directory(k) + hash_segment(k).subrange(0, 2) + seq!['/']
}

/// The object name under which `k` is kept: `dirs/hash` becomes
/// `dirs/hh/hash`, where `hh` is the first two characters of the hash. A key
/// whose hash is shorter than two characters has none.
pub open spec fn balanced_key(k: Seq<char>) -> Option<Seq<char>> {
    if hash_segment(k).len() < 2 {
        None
    } else {
        Some(shard_of(k) + hash_segment(k))
    }
}

/// `j` is where the last segment of `k` begins.
pub open spec fn is_segment_start(k: Seq<char>, j: int) -> bool {
    &&& 0 <= j <= k.len()
    &&& (j == 0 || k[j - 1] == '/')
    &&& forall|i: int| j <= i < k.len() ==> k[i] != '/'
}

proof fn lemma_segment_start(k: Seq<char>)
    ensures
        is_segment_start(k, segment_start(k)),
    decreases k.len(),
{
    if k.len() > 0 && k.last() != '/' {
        let d = k.drop_last();
        lemma_segment_start(d);
        assert forall|i: int| segment_start(d) <= i < k.len() implies k[i] != '/' by {
            if i < d.len() {
                assert(k[i] == d[i]);
            }
        }
        if segment_start(d) > 0 {
            assert(k[segment_start(d) - 1] == d[segment_start(d) - 1]);
        }
    }
}

proof fn lemma_segment_start_unique(k: Seq<char>, j: int)
    requires
        is_segment_start(k, j),
    ensures
        segment_start(k) == j,
{
    lemma_segment_start(k);
    let s = segment_start(k);
    if s < j {
        assert(k[j - 1] == '/');
    } else if j < s {
        assert(k[s - 1] == '/');
    }
}

/// Balancing is deterministic and keeps keys apart: two keys that both have
/// an object name get the same one exactly when they are the same key.
pub proof fn lemma_balanced_key_injective(k1: Seq<char>, k2: Seq<char>)
    requires
        balanced_key(k1) is Some,
        balanced_key(k2) is Some,
    ensures
        balanced_key(k1) == balanced_key(k2) <==> k1 == k2,
{
    if balanced_key(k1) == balanced_key(k2) {
        let o = balanced_key(k1)->Some_0;
        lemma_segment_start(k1);
        lemma_segment_start(k2);
        let h1 = hash_segment(k1);
        let h2 = hash_segment(k2);
        assert(is_segment_start(o, o.len() - h1.len())) by {
            assert(o[o.len() - h1.len() - 1] == '/');
            assert forall|i: int| o.len() - h1.len() <= i < o.len() implies o[i] != '/' by {
                assert(o[i] == h1[i - (o.len() - h1.len())]);
                assert(h1[i - (o.len() - h1.len())] == k1[segment_start(k1) + i - (o.len()
                    - h1.len())]);
            }
        }
        assert(is_segment_start(o, o.len() - h2.len())) by {
            assert(o[o.len() - h2.len() - 1] == '/');
            assert forall|i: int| o.len() - h2.len() <= i < o.len() implies o[i] != '/' by {
                assert(o[i] == h2[i - (o.len() - h2.len())]);
                assert(h2[i - (o.len() - h2.len())] == k2[segment_start(k2) + i - (o.len()
                    - h2.len())]);
            }
        }
        lemma_segment_start_unique(o, o.len() - h1.len());
        lemma_segment_start_unique(o, o.len() - h2.len());
        assert(h1 =~= o.subrange(o.len() - h1.len(), o.len() as int));
        assert(h2 =~= o.subrange(o.len() - h2.len(), o.len() as int));
        assert(directory(k1) =~= o.subrange(0, o.len() - h1.len() - 3));
        assert(directory(k2) =~= o.subrange(0, o.len() - h2.len() - 3));
        assert(k1 =~= directory(k1) + h1);
        assert(k2 =~= directory(k2) + h2);
    }
}

/// Keys with the same directories whose hashes share their first two
/// characters go to the same shard directory, and each keeps an object name
/// of its own.
pub proof fn lemma_shared_shard(k1: Seq<char>, k2: Seq<char>)
    requires
        balanced_key(k1) is Some,
        balanced_key(k2) is Some,
        directory(k1) == directory(k2),
        hash_segment(k1).subrange(0, 2) == hash_segment(k2).subrange(0, 2),
    ensures
        shard_of(k1) == shard_of(k2),
        balanced_key(k1)->Some_0.subrange(0, shard_of(k1).len() as int) == shard_of(k1),
        balanced_key(k2)->Some_0.subrange(0, shard_of(k2).len() as int) == shard_of(k2),
        k1 != k2 ==> balanced_key(k1) != balanced_key(k2),
{
    lemma_balanced_key_injective(k1, k2);
    assert((shard_of(k1) + hash_segment(k1)).subrange(0, shard_of(k1).len() as int)
        =~= shard_of(k1));
    assert((shard_of(k2) + hash_segment(k2)).subrange(0, shard_of(k2).len() as int)
        =~= shard_of(k2));
}

/// How a bucket's status for a read or a probe of an object is taken: a
/// success means found, 404 means absent, and anything else is a failed
/// transfer.
pub fn object_found(status: u16) -> (r: Result<bool, StorageError>)
    ensures
        r == if 200 <= status < 300 {
            Ok::<bool, StorageError>(true)
        } else if status == 404 {
            Ok(false)
        } else {
            Err(StorageError::TransferFailure)
        },
{
    if 200 <= status && status < 300 {
        Ok(true)
    } else if status == 404 {
        Ok(false)
    } else {
        Err(StorageError::TransferFailure)
    }
}

/// How a bucket's status for a write is taken: anything but a success is a
/// failed transfer.
pub fn write_outcome(status: u16) -> (r: Result<(), StorageError>)
    ensures
        r == if 200 <= status < 300 {
            Ok::<(), StorageError>(())
        } else {
            Err(StorageError::TransferFailure)
        },
{
    if 200 <= status && status < 300 {
        Ok(())
    } else {
        Err(StorageError::TransferFailure)
    }
}

/// The remote store. It holds no entries of its own: every entry lives in
/// the bucket under its balanced object name.
pub struct Store {}

impl Store {
    pub fn new() -> (r: Store) {
        Store {  }
    }

    /// The object name of `key`, or `None` when its last segment is shorter
    /// than two characters.
    pub fn get_blanced_key(&self, key: &str) -> (r: Option<String>)
        ensures
            r is Some <==> balanced_key(key@) is Some,
            r is Some ==> r->Some_0@ == balanced_key(key@)->Some_0,
    {
        let n = key.unicode_len();
        let mut j = n;
        while j > 0
            invariant
                n == key@.len(),
                j <= n,
                forall|i: int| j <= i < n ==> key@[i] != '/',
            ensures
                j == 0 || key@[j - 1] == '/',
                forall|i: int| j <= i < n ==> key@[i] != '/',
            decreases j,
        {
            if key.get_char(j - 1) == '/' {
                break;
            }
            j = j - 1;
        }
        proof {
            lemma_segment_start_unique(key@, j as int);
        }
        if n - j < 2 {
            return None;
        }
        let mut out = String::from_str(key.substring_char(0, j));
        out.append(key.substring_char(j, j + 2));
        out.append("/");
        out.append(key.substring_char(j, n));
        proof {
            reveal_strlit("/");
            assert(out@ =~= balanced_key(key@)->Some_0);
        }
        Some(out)
    }

    /// The object name of `key`, or `InvalidKey` when it has none.
    pub fn object_key(&self, key: &str) -> (r: Result<String, StorageError>)
        ensures
            match balanced_key(key@) {
                Some(o) => r is Ok && r->Ok_0@ == o,
                None => r == Err::<String, StorageError>(StorageError::InvalidKey),
            },
    {
        match self.get_blanced_key(key) {
            Some(o) => Ok(o),
            None => Err(StorageError::InvalidKey),
        }
    }

    /// Not offered by a bucket store.
    pub fn remove(&mut self, key: &str) -> (r: Result<(), StorageError>)
        ensures
            r == Err::<(), StorageError>(StorageError::UnsupportedOperation),
    {
        Err(StorageError::UnsupportedOperation)
    }

    /// Not offered by a bucket store.
    pub fn list(&self, prefix: &str) -> (r: Result<Vec<String>, StorageError>)
        ensures
            r == Err::<Vec<String>, StorageError>(StorageError::UnsupportedOperation),
    {
        Err(StorageError::UnsupportedOperation)
    }

    /// Not offered by a bucket store.
    pub fn clear(&mut self) -> (r: Result<(), StorageError>)
        ensures
            r == Err::<(), StorageError>(StorageError::UnsupportedOperation),
    {
        Err(StorageError::UnsupportedOperation)
    }
}

} // verus!
