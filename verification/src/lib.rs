//! A fixed-width, big-endian binary serialization core.
//!
//! Values of the primitive scalar types, fixed-size arrays and growable
//! sequences are written to and read from byte buffers in network byte
//! order, with no length prefixes or tags: the byte width of every value is
//! fully determined by its type.

use vstd::prelude::*;

mod compound;
mod error;
mod ext;
mod laws;
mod primitives;
mod protocol;
mod reader;
mod wire;

pub use compound::wire_concat;
pub use error::PackError;
pub use ext::{ReadPackExt, WritePackExt};
pub use laws::{
    lemma_bool_leniency, lemma_round_trip_bool, lemma_round_trip_i128, lemma_round_trip_i16,
    lemma_round_trip_i32, lemma_round_trip_i64, lemma_round_trip_i8, lemma_round_trip_u128,
    lemma_round_trip_u16, lemma_round_trip_u32, lemma_round_trip_u64, lemma_round_trip_u8,
};
pub use protocol::{Packable, Unpackable};
pub use reader::ByteReader;

verus! {

/// Read one `T` from `rdr`, advancing it exactly `T::wire_len()` bytes;
/// fail without moving it if fewer bytes remain.
pub fn unpack_from<T: Unpackable>(rdr: &mut ByteReader) -> (r: Result<T, PackError>)
    requires
        old(rdr).wf(),
    ensures
        final(rdr).wf(),
        final(rdr).all_bytes() == old(rdr).all_bytes(),
        old(rdr).remaining().len() >= T::wire_len() ==> {
            &&& r is Ok
            &&& T::decodes(old(rdr).remaining().take(T::wire_len() as int), r->Ok_0)
            &&& final(rdr).position() == old(rdr).position() + T::wire_len()
        },
        old(rdr).remaining().len() < T::wire_len() ==> {
            &&& r is Err
            &&& r->Err_0 == PackError::SizeError
            &&& final(rdr).position() == old(rdr).position()
        },
{
    T::unpack_from(rdr)
}

/// Decode one `T` from the front of `buf`, returning it paired with the
/// unconsumed suffix of `buf`.
pub fn unpack<T: Unpackable>(buf: &[u8]) -> (r: Result<(T, &[u8]), PackError>)
    ensures
        buf@.len() >= T::wire_len() ==> {
            &&& r is Ok
            &&& T::decodes(buf@.take(T::wire_len() as int), r->Ok_0.0)
            &&& r->Ok_0.1@ == buf@.skip(T::wire_len() as int)
        },
        buf@.len() < T::wire_len() ==> {
            &&& r is Err
            &&& r->Err_0 == PackError::SizeError
        },
{
    T::unpack(buf)
}

/// Append the byte representation of `value` to `wtr`.
pub fn pack_into<T: Packable>(wtr: &mut Vec<u8>, value: &T) -> (r: Result<(), PackError>)
    ensures
        r is Ok,
        final(wtr)@ == old(wtr)@ + value.wire(),
{
    T::pack_into(value, wtr)
}

/// Encode `value` into a fresh buffer.
pub fn pack<T: Packable>(value: &T) -> (r: Result<Vec<u8>, PackError>)
    ensures
        r is Ok,
        r->Ok_0@ == value.wire(),
{
    T::pack(value)
}

} // verus!
