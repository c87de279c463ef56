//! The encode and decode protocols.
//!
//! `Packable` writes a value's fixed byte representation to a growable
//! sink; `Unpackable` reads a value back from a buffer, leaving the
//! unconsumed suffix.  Decoding either consumes exactly the type's width
//! and succeeds, or consumes nothing and fails with `PackError::SizeError`.

use vstd::prelude::*;
use vstd::slice::slice_subrange;
use crate::error::PackError;
use crate::reader::ByteReader;

verus! {

/// A type whose values can be written to the wire.
///
/// Encoding never fails for the in-memory sink and never reads or mutates
/// the value; it appends exactly `self.wire()` to the sink.
pub trait Packable {
    /// The byte representation of this value on the wire.
    spec fn wire(&self) -> Seq<u8>;

    /// Append the value's byte representation to `out`.
    fn pack_into(&self, out: &mut Vec<u8>) -> (r: Result<(), PackError>)
        ensures
            r is Ok,
            final(out)@ == old(out)@ + self.wire(),
        ;

    /// Encode the value into a fresh buffer.
    fn pack(&self) -> (r: Result<Vec<u8>, PackError>)
        ensures
            r is Ok,
            r->Ok_0@ == self.wire(),
    {
        let mut wtr: Vec<u8> = Vec::new();
        match self.pack_into(&mut wtr) {
            Ok(()) => Ok(wtr),
            Err(e) => Err(e),
        }
    }
}

/// A type whose values occupy a fixed number of bytes on the wire and can
/// be read back.
///
/// Decoding consumes exactly `Self::wire_len()` bytes and yields the value
/// those bytes decode to; if fewer bytes are available it fails with
/// `PackError::SizeError` and consumes nothing.
pub trait Unpackable: Sized {
    /// The fixed number of bytes a value of this type occupies on the wire.
    spec fn wire_len() -> nat;

    /// `v` is the value that the `wire_len()`-byte sequence `bytes`
    /// decodes to.
    spec fn decodes(bytes: Seq<u8>, v: Self) -> bool;

    /// Read one value from `rdr`, advancing it exactly `wire_len()` bytes;
    /// fail without moving it if fewer bytes remain.
    fn unpack_from(rdr: &mut ByteReader) -> (r: Result<Self, PackError>)
        requires
            old(rdr).wf(),
        ensures
            final(rdr).wf(),
            final(rdr).all_bytes() == old(rdr).all_bytes(),
            old(rdr).remaining().len() >= Self::wire_len() ==> {
                &&& r is Ok
                &&& Self::decodes(
                    old(rdr).remaining().take(Self::wire_len() as int),
                    r->Ok_0,
                )
                &&& final(rdr).position() == old(rdr).position() + Self::wire_len()
            },
            old(rdr).remaining().len() < Self::wire_len() ==> {
                &&& r is Err
                &&& r->Err_0 == PackError::SizeError
                &&& final(rdr).position() == old(rdr).position()
            },
        ;

    /// Decode one value from the front of `buf`, returning it paired with
    /// the unconsumed suffix of `buf`.
    fn unpack(buf: &[u8]) -> (r: Result<(Self, &[u8]), PackError>)
        ensures
            buf@.len() >= Self::wire_len() ==> {
                &&& r is Ok
                &&& Self::decodes(buf@.take(Self::wire_len() as int), r->Ok_0.0)
                &&& r->Ok_0.1@ == buf@.skip(Self::wire_len() as int)
            },
            buf@.len() < Self::wire_len() ==> {
                &&& r is Err
                &&& r->Err_0 == PackError::SizeError
            },
    {
        let mut rdr = ByteReader::new(buf);
        proof {
            assert(rdr.remaining() =~= buf@);
        }
        match Self::unpack_from(&mut rdr) {
            Ok(v) => {
                let consumed = rdr.bytes_consumed();
                let rest = slice_subrange(buf, consumed, buf.len());
                proof {
                    assert(rest@ =~= buf@.skip(Self::wire_len() as int));
                }
                Ok((v, rest))
            },
            Err(e) => Err(e),
        }
    }
}

} // verus!
