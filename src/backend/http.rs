//! The cache gateway: `GET` and `PUT` on the action cache (`ac`) and the
//! content-addressable store (`cas`), as decisions over a store.

use crate::storage::payload::{bytes_view, Upload, MAX_BODY_BYTES};
use crate::storage::{Storage, StorageError};
use bytes::Bytes;
use vstd::prelude::*;
use vstd::string::StringExecFns;

verus! {

pub const STATUS_OK: u16 = 200;

pub const STATUS_CREATED: u16 = 201;

pub const STATUS_ACCEPTED: u16 = 202;

pub const STATUS_BAD_REQUEST: u16 = 400;

pub const STATUS_NOT_FOUND: u16 = 404;

pub const STATUS_PAYLOAD_TOO_LARGE: u16 = 413;

pub const STATUS_INTERNAL_ERROR: u16 = 500;

pub const STATUS_NOT_IMPLEMENTED: u16 = 501;

/// The two namespaces of the cache.
#[derive(Clone, Copy, Debug, PartialEq, Eq, Structural)]
pub enum Namespace {
    /// The action cache: build-action fingerprints to results.
    Ac,
    /// The content-addressable store: content hashes to blobs.
    Cas,
}

/// The text in front of a path in a namespace's keys.
pub open spec fn namespace_prefix(ns: Namespace) -> Seq<char> {
    match ns {
        Namespace::Ac => seq!['a', 'c', '/'],
        Namespace::Cas => seq!['c', 'a', 's', '/'],
    }
}

/// The store key of `path` in `ns`: `ac/{path}` or `cas/{path}`.
pub open spec fn store_key(ns: Namespace, path: Seq<char>) -> Seq<char> {
    namespace_prefix(ns) + path
}

/// The status of a `PUT` whose key is already present: the action cache
/// reports the write as accepted and unchanged, the content-addressable store
/// as created, since the content is the same by its hash.
pub open spec fn present_status(ns: Namespace) -> u16 {
    match ns {
        Namespace::Ac => STATUS_ACCEPTED,
        Namespace::Cas => STATUS_CREATED,
    }
}

/// The status that reports a storage error.
pub open spec fn error_status_of(e: StorageError) -> u16 {
    match e {
        StorageError::TransferFailure => STATUS_INTERNAL_ERROR,
        StorageError::PayloadTooLarge => STATUS_PAYLOAD_TOO_LARGE,
        StorageError::InvalidKey => STATUS_BAD_REQUEST,
        StorageError::UnsupportedOperation => STATUS_NOT_IMPLEMENTED,
    }
}

/// The store key of `path` in `ns`.
pub fn cache_key(ns: Namespace, path: &str) -> (r: String)
    ensures
        r@ == store_key(ns, path@),
{
    let mut k = match ns {
        Namespace::Ac => String::from_str("ac/"),
        Namespace::Cas => String::from_str("cas/"),
    };
    proof {
        reveal_strlit("ac/");
        reveal_strlit("cas/");
    }
    k.append(path);
    k
}

/// The status that reports `e`.
pub fn error_status(e: StorageError) -> (r: u16)
    ensures
        r == error_status_of(e),
{
    match e {
        StorageError::TransferFailure => STATUS_INTERNAL_ERROR,
        StorageError::PayloadTooLarge => STATUS_PAYLOAD_TOO_LARGE,
        StorageError::InvalidKey => STATUS_BAD_REQUEST,
        StorageError::UnsupportedOperation => STATUS_NOT_IMPLEMENTED,
    }
}

/// The status of a `GET`, by whether the key was found.
pub fn get_status(found: bool) -> (r: u16)
    ensures
        r == if found {
            STATUS_OK
        } else {
            STATUS_NOT_FOUND
        },
{
    if found {
        STATUS_OK
    } else {
        STATUS_NOT_FOUND
    }
}

/// A body whose declared length is over the ceiling. A body of unknown
/// length is held to the ceiling while it is read.
pub open spec fn declared_too_large(declared: Option<u64>) -> bool {
    declared is Some && declared->Some_0 > MAX_BODY_BYTES
}

/// A body that is refused for its size: declared over the ceiling, or read
/// past it.
pub open spec fn body_too_large(declared: Option<u64>, body: Upload) -> bool {
    declared_too_large(declared) || body.failure() == Some(StorageError::PayloadTooLarge)
}

/// Whether a `PUT` with this declared body length may go on. One that may
/// not is answered 413 before its body is read or its key probed.
pub fn admits_declared_length(declared: Option<u64>) -> (r: bool)
    ensures
        r == !declared_too_large(declared),
{
    match declared {
        Some(n) => n <= MAX_BODY_BYTES as u64,
        None => true,
    }
}

/// What a `PUT` does once it knows whether its key is present.
#[derive(Clone, Copy, Debug, PartialEq, Eq, Structural)]
pub enum PutPlan {
    /// Answer at once with this status; nothing is written.
    Respond(u16),
    /// Stream the body into the store.
    Write,
}

/// A `PUT` on a present key writes nothing; on an absent one it writes.
pub fn plan_put(ns: Namespace, present: bool) -> (r: PutPlan)
    ensures
        r == if present {
            PutPlan::Respond(present_status(ns))
        } else {
            PutPlan::Write
        },
{
    if present {
        match ns {
            Namespace::Ac => PutPlan::Respond(STATUS_ACCEPTED),
            Namespace::Cas => PutPlan::Respond(STATUS_CREATED),
        }
    } else {
        PutPlan::Write
    }
}

/// The status of a `PUT` once its write has ended.
pub fn put_status(written: Result<(), StorageError>) -> (r: u16)
    ensures
        r == match written {
            Ok(_) => STATUS_CREATED,
            Err(e) => error_status_of(e),
        },
{
    match written {
        Ok(_) => STATUS_CREATED,
        Err(e) => error_status(e),
    }
}

/// A response: a status and, for a value found, its bytes.
pub struct Reply {
    pub status: u16,
    pub body: Option<Bytes>,
}

/// The reply to a `GET` of `path` in `ns` on a store with `entries`.
pub open spec fn get_reply_matches(
    entries: Map<Seq<char>, Seq<u8>>,
    ns: Namespace,
    path: Seq<char>,
    r: Reply,
) -> bool {
    let k = store_key(ns, path);
    if entries.contains_key(k) {
        r.status == STATUS_OK && r.body is Some && bytes_view(r.body->Some_0) == entries[k]
    } else {
        r.status == STATUS_NOT_FOUND && r.body is None
    }
}

/// The effect of a `PUT` of `body`, declared as `declared` bytes long, on
/// `path` in `ns`: the status it reports and the entries it leaves, from the
/// entries `before`. A body refused for its size answers 413 and writes
/// nothing, whether or not the key is present.
pub open spec fn put_effect(
    before: Map<Seq<char>, Seq<u8>>,
    ns: Namespace,
    path: Seq<char>,
    declared: Option<u64>,
    body: Upload,
    status: u16,
    after: Map<Seq<char>, Seq<u8>>,
) -> bool {
    let k = store_key(ns, path);
    if body_too_large(declared, body) {
        status == STATUS_PAYLOAD_TOO_LARGE && after == before
    } else if before.contains_key(k) {
        status == present_status(ns) && after == before
    } else {
        match body.failure() {
            Some(e) => status == error_status_of(e) && after == before,
            None => status == STATUS_CREATED && after == before.insert(k, body.received()),
        }
    }
}

/// A `PUT` whose body is over the ceiling is refused with 413 and changes
/// nothing, on a present key as on an absent one.
pub proof fn lemma_oversize_refused(
    before: Map<Seq<char>, Seq<u8>>,
    ns: Namespace,
    path: Seq<char>,
    declared: Option<u64>,
    body: Upload,
    status: u16,
    after: Map<Seq<char>, Seq<u8>>,
)
    requires
        body_too_large(declared, body),
        put_effect(before, ns, path, declared, body, status, after),
    ensures
        status == STATUS_PAYLOAD_TOO_LARGE,
        after == before,
{
}

/// A `PUT` of a complete body within the ceiling on an absent key reports 201, and a `GET` of
/// the same key afterwards answers 200 with exactly that body.
pub proof fn lemma_put_then_get(
    before: Map<Seq<char>, Seq<u8>>,
    ns: Namespace,
    path: Seq<char>,
    declared: Option<u64>,
    body: Upload,
    status: u16,
    after: Map<Seq<char>, Seq<u8>>,
    reply: Reply,
)
    requires
        !before.contains_key(store_key(ns, path)),
        body.failure() is None,
        !body_too_large(declared, body),
        put_effect(before, ns, path, declared, body, status, after),
        get_reply_matches(after, ns, path, reply),
    ensures
        status == STATUS_CREATED,
        reply.status == STATUS_OK,
        reply.body is Some,
        bytes_view(reply.body->Some_0) == body.received(),
{
}

/// A `PUT` within the ceiling on a key that is present writes nothing: it reports the
/// namespace's status for a present key, and a `GET` still answers with the
/// value that was there.
pub proof fn lemma_put_on_present_key(
    before: Map<Seq<char>, Seq<u8>>,
    ns: Namespace,
    path: Seq<char>,
    declared: Option<u64>,
    body: Upload,
    status: u16,
    after: Map<Seq<char>, Seq<u8>>,
    reply: Reply,
)
    requires
        before.contains_key(store_key(ns, path)),
        !body_too_large(declared, body),
        put_effect(before, ns, path, declared, body, status, after),
        get_reply_matches(after, ns, path, reply),
    ensures
        status == present_status(ns),
        after == before,
        reply.status == STATUS_OK,
        reply.body is Some,
        bytes_view(reply.body->Some_0) == before[store_key(ns, path)],
{
}

/// The HTTP-facing side of the cache.
pub struct Backend {}

impl Backend {
    fn get_in<S: Storage>(store: &S, ns: Namespace, path: &str) -> (r: Reply)
        requires
            store.well_formed(),
        ensures
            get_reply_matches(store.entries(), ns, path@, r),
    {
        let key = cache_key(ns, path);
        match store.get(key.as_str()) {
            Some(data) => Reply { status: get_status(true), body: Some(data) },
            None => Reply { status: get_status(false), body: None },
        }
    }

    fn put_in<S: Storage>(
        store: &mut S,
        ns: Namespace,
        path: &str,
        declared: Option<u64>,
        body: Upload,
    ) -> (r: u16)
        requires
            old(store).well_formed(),
        ensures
            final(store).well_formed(),
            put_effect(old(store).entries(), ns, path@, declared, body, r, final(store).entries()),
    {
        if !admits_declared_length(declared) {
            return STATUS_PAYLOAD_TOO_LARGE;
        }
        match body.error() {
            Some(StorageError::PayloadTooLarge) => {
                return STATUS_PAYLOAD_TOO_LARGE;
            },
            _ => {},
        }
        let key = cache_key(ns, path);
        match plan_put(ns, store.has(key.as_str())) {
            PutPlan::Respond(status) => status,
            PutPlan::Write => {
                let written = store.set(key.as_str(), body);
                put_status(written)
            },
        }
    }

    /// `GET /ac/{path}`: the value with 200, or 404 when it is absent.
    pub fn get_action<S: Storage>(store: &S, path: &str) -> (r: Reply)
        requires
            store.well_formed(),
        ensures
            get_reply_matches(store.entries(), Namespace::Ac, path@, r),
    {
        Self::get_in(store, Namespace::Ac, path)
    }

    /// `PUT /ac/{path}`: 413 and no write when the body is over the
    /// ceiling; else 202 and no write when the key is present; else the body
    /// is stored and 201 reported.
    pub fn put_action<S: Storage>(
        store: &mut S,
        path: &str,
        declared: Option<u64>,
        body: Upload,
    ) -> (r: u16)
        requires
            old(store).well_formed(),
        ensures
            final(store).well_formed(),
            put_effect(
                old(store).entries(),
                Namespace::Ac,
                path@,
                declared,
                body,
                r,
                final(store).entries(),
            ),
    {
        Self::put_in(store, Namespace::Ac, path, declared, body)
    }

    /// `GET /cas/{path}`: the value with 200, or 404 when it is absent.
    pub fn get_item<S: Storage>(store: &S, path: &str) -> (r: Reply)
        requires
            store.well_formed(),
        ensures
            get_reply_matches(store.entries(), Namespace::Cas, path@, r),
    {
        Self::get_in(store, Namespace::Cas, path)
    }

    /// `PUT /cas/{path}`: 413 and no write when the body is over the
    /// ceiling; else 201 whether the key was present, in which case nothing
    /// is written, or the body was stored.
    pub fn put_item<S: Storage>(
        store: &mut S,
        path: &str,
        declared: Option<u64>,
        body: Upload,
    ) -> (r: u16)
        requires
            old(store).well_formed(),
        ensures
            final(store).well_formed(),
            put_effect(
                old(store).entries(),
                Namespace::Cas,
                path@,
                declared,
                body,
                r,
                final(store).entries(),
            ),
    {
        Self::put_in(store, Namespace::Cas, path, declared, body)
    }
}

} // verus!
