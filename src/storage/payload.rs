//! Byte buffers of the `bytes` crate, and an upload that gathers a value
//! chunk by chunk.

use super::StorageError;
use bytes::{Bytes, BytesMut};
use vstd::prelude::*;

verus! {

#[verifier::external_type_specification]
#[verifier::external_body]
pub struct ExBytes(Bytes);

#[verifier::external_type_specification]
#[verifier::external_body]
pub struct ExBytesMut(BytesMut);

/// The bytes that an immutable buffer holds.
pub uninterp spec fn bytes_view(b: Bytes) -> Seq<u8>;

/// The bytes that a growable buffer holds.
pub uninterp spec fn bytes_mut_view(b: BytesMut) -> Seq<u8>;

/// Relies on `BytesMut::new`: a buffer that holds no bytes.
pub assume_specification[ BytesMut::new ]() -> (r: BytesMut)
    ensures
        bytes_mut_view(r) == Seq::<u8>::empty(),
;

/// Relies on `BytesMut::extend_from_slice`: the slice is appended. It reserves
/// room first, which panics when the new length overflows.
pub assume_specification[ BytesMut::extend_from_slice ](b: &mut BytesMut, extend: &[u8])
    requires
        bytes_mut_view(*old(b)).len() + extend@.len() <= isize::MAX,
    ensures
        bytes_mut_view(*final(b)) == bytes_mut_view(*old(b)) + extend@,
;

/// Relies on `BytesMut::len`: the number of bytes held.
pub assume_specification[ BytesMut::len ](b: &BytesMut) -> (r: usize)
    ensures
        r == bytes_mut_view(*b).len(),
;

/// Relies on `BytesMut::freeze`: the same bytes, now immutable.
pub assume_specification[ BytesMut::freeze ](b: BytesMut) -> (r: Bytes)
    ensures
        bytes_view(r) == bytes_mut_view(b),
;

/// Relies on `Bytes::clone`: a second handle on the same bytes.
pub assume_specification[ <Bytes as Clone>::clone ](b: &Bytes) -> (r: Bytes)
    ensures
        bytes_view(r) == bytes_view(*b),
;

/// Relies on `Bytes::as_ref`: the bytes as a slice.
pub assume_specification[ <Bytes as AsRef<[u8]>>::as_ref ](b: &Bytes) -> (r: &[u8])
    ensures
        r@ == bytes_view(*b),
;

} // verus!

verus! {

/// The largest value that an upload accepts: one gibibyte.
pub const MAX_BODY_BYTES: usize = 1073741824;

/// A value received chunk by chunk. Nothing of it reaches a store until the
/// whole upload is handed to `set`, so an upload that is dropped halfway
/// leaves no trace.
pub struct Upload {
    buf: BytesMut,
    error: Option<StorageError>,
}

impl Upload {
    /// The bytes received so far.
    pub closed spec fn received(&self) -> Seq<u8> {
        bytes_mut_view(self.buf)
    }

    /// The error that ended the upload, if one did.
    pub closed spec fn failure(&self) -> Option<StorageError> {
        self.error
    }

    pub closed spec fn well_formed(&self) -> bool {
        self.received().len() <= MAX_BODY_BYTES
    }

    pub fn new() -> (r: Upload)
        ensures
            r.well_formed(),
            r.received() == Seq::<u8>::empty(),
            r.failure() is None,
    {
        Upload { buf: BytesMut::new(), error: None }
    }

    /// The error that ended the upload, if one did.
    pub fn error(&self) -> (r: Option<StorageError>)
        ensures
            r == self.failure(),
    {
        self.error
    }

    /// The received value, or the error that ended the upload.
    pub fn finish(self) -> (r: Result<Bytes, StorageError>)
        ensures
            match self.failure() {
                Some(e) => r == Err::<Bytes, StorageError>(e),
                None => r is Ok && bytes_view(r->Ok_0) == self.received(),
            },
    {
        match self.error {
            Some(e) => Err(e),
            None => Ok(self.buf.freeze()),
        }
    }

    /// Takes the next chunk of the value, or the transfer error that ends it.
    /// A chunk that would carry the value past `MAX_BODY_BYTES` ends the
    /// upload with `PayloadTooLarge`. After an error every chunk is ignored.
    pub fn push_chunk(&mut self, chunk: Result<Bytes, StorageError>)
        requires
            old(self).well_formed(),
        ensures
            final(self).well_formed(),
            ({
                let before = old(self).received();
                match (old(self).failure(), chunk) {
                    (Some(_), _) => *final(self) == *old(self),
                    (None, Err(e)) => final(self).failure() == Some(e)
                        && final(self).received() == before,
                    (None, Ok(c)) => if before.len() + bytes_view(c).len() <= MAX_BODY_BYTES {
                        final(self).failure() is None
                            && final(self).received() == before + bytes_view(c)
                    } else {
                        final(self).failure() == Some(StorageError::PayloadTooLarge)
                            && final(self).received() == before
                    },
                }
            }),
    {
        if self.error.is_some() {
            return;
        }
        match chunk {
            Err(e) => {
                self.error = Some(e);
            },
            Ok(c) => {
                let s: &[u8] = c.as_ref();
                if s.len() <= MAX_BODY_BYTES - self.buf.len() {
                    self.buf.extend_from_slice(s);
                } else {
                    self.error = Some(StorageError::PayloadTooLarge);
                }
            },
        }
    }
}

/// A count of the bytes of a body that is passed on as it arrives, held to
/// `MAX_BODY_BYTES`.
pub struct Meter {
    seen: usize,
}

impl Meter {
    /// The number of bytes admitted so far.
    pub closed spec fn admitted(&self) -> nat {
        self.seen as nat
    }

    pub closed spec fn well_formed(&self) -> bool {
        self.seen <= MAX_BODY_BYTES
    }

    pub fn new() -> (r: Meter)
        ensures
            r.well_formed(),
            r.admitted() == 0,
    {
        Meter { seen: 0 }
    }

    /// Counts a chunk of `len` bytes when the total stays within the
    /// ceiling; otherwise refuses it with `PayloadTooLarge` and counts
    /// nothing.
    pub fn count(&mut self, len: usize) -> (r: Result<(), StorageError>)
        requires
            old(self).well_formed(),
        ensures
            final(self).well_formed(),
            if old(self).admitted() + len <= MAX_BODY_BYTES {
                r is Ok && final(self).admitted() == old(self).admitted() + len
            } else {
                r == Err::<(), StorageError>(StorageError::PayloadTooLarge) && final(self).admitted()
                    == old(self).admitted()
            },
    {
        if len <= MAX_BODY_BYTES - self.seen {
            self.seen = self.seen + len;
            Ok(())
        } else {
            Err(StorageError::PayloadTooLarge)
        }
    }
}

} // verus!
