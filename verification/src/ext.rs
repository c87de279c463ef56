//! Ergonomic wrappers: encode and decode calls attached directly to the
//! sink and source types, with no behaviour of their own — they delegate
//! to the protocols.

use vstd::prelude::*;
use crate::error::PackError;
use crate::protocol::{Packable, Unpackable};
use crate::reader::ByteReader;

verus! {

/// A writable sink that values can be packed straight onto.
pub trait WritePackExt {
    /// The bytes the sink has accepted so far.
    spec fn sink_bytes(&self) -> Seq<u8>;

    /// Append the byte representation of `value` to this sink.
    fn pack<T: Packable>(&mut self, value: &T) -> (r: Result<(), PackError>)
        ensures
            r is Ok,
            final(self).sink_bytes() == old(self).sink_bytes() + value.wire(),
        ;
}

impl WritePackExt for Vec<u8> {
    open spec fn sink_bytes(&self) -> Seq<u8> {
        self@
    }

    fn pack<T: Packable>(&mut self, value: &T) -> (r: Result<(), PackError>) {
        value.pack_into(self)
    }
}

/// A readable source that values can be unpacked straight off.
pub trait ReadPackExt {
    /// The whole underlying input, read and unread parts alike.
    spec fn src_bytes(&self) -> Seq<u8>;

    /// How many bytes have been read.
    spec fn src_position(&self) -> nat;

    /// The source is in a readable state.
    spec fn src_wf(&self) -> bool;

    /// Read one `T` from this source, advancing it exactly
    /// `T::wire_len()` bytes; fail without moving it if fewer remain.
    fn unpack<T: Unpackable>(&mut self) -> (r: Result<T, PackError>)
        requires
            old(self).src_wf(),
        ensures
            final(self).src_wf(),
            final(self).src_bytes() == old(self).src_bytes(),
            ({
                let rem = old(self).src_bytes().skip(old(self).src_position() as int);
                &&& rem.len() >= T::wire_len() ==> {
                    &&& r is Ok
                    &&& T::decodes(rem.take(T::wire_len() as int), r->Ok_0)
                    &&& final(self).src_position() == old(self).src_position() + T::wire_len()
                }
                &&& rem.len() < T::wire_len() ==> {
                    &&& r is Err
                    &&& r->Err_0 == PackError::SizeError
                    &&& final(self).src_position() == old(self).src_position()
                }
            }),
        ;
}

impl<'a> ReadPackExt for ByteReader<'a> {
    open spec fn src_bytes(&self) -> Seq<u8> {
        self.all_bytes()
    }

    open spec fn src_position(&self) -> nat {
        self.position()
    }

    open spec fn src_wf(&self) -> bool {
        self.wf()
    }

    fn unpack<T: Unpackable>(&mut self) -> (r: Result<T, PackError>) {
        T::unpack_from(self)
    }
}

} // verus!
