//! The laws the codecs obey, proved once and for all values.
//!
//! For every primitive type, encoding a value yields exactly the type's
//! width in bytes, and those bytes decode back to that value and to no
//! other: `decode(encode(v))` gives `(v, empty remainder)`.  The boolean
//! round trip holds over the canonical wire bytes 0x00 and 0x01, which are
//! the only bytes the encoder emits.

use vstd::prelude::*;
use crate::protocol::{Packable, Unpackable};
use crate::wire::{lemma_be_bytes_len, lemma_be_bytes_value, lemma_pow256_values, to_unsigned};

verus! {

/// Boolean leniency: a decoded boolean is `true` exactly when the wire
/// byte is nonzero — 0x01, 0x20 and every other nonzero byte give `true`,
/// 0x00 gives `false`.
pub proof fn lemma_bool_leniency(bytes: Seq<u8>, v: bool)
    requires
        <bool as Unpackable>::decodes(bytes, v),
    ensures
        v == (bytes[0] != 0),
{
}

/// Round trip for `bool`: one byte, decoding back to the value.
pub proof fn lemma_round_trip_bool(v: bool)
    ensures
        v.wire().len() == <bool as Unpackable>::wire_len(),
        forall|w: bool| <bool as Unpackable>::decodes(v.wire(), w) <==> w == v,
{
}

/// Round trip for `u8`.
pub proof fn lemma_round_trip_u8(v: u8)
    ensures
        v.wire().len() == <u8 as Unpackable>::wire_len(),
        forall|w: u8| <u8 as Unpackable>::decodes(v.wire(), w) <==> w == v,
{
    lemma_pow256_values();
    lemma_be_bytes_len(v as nat, 1);
    lemma_be_bytes_value(v as nat, 1);
}

/// Round trip for `i8`.
pub proof fn lemma_round_trip_i8(v: i8)
    ensures
        v.wire().len() == <i8 as Unpackable>::wire_len(),
        forall|w: i8| <i8 as Unpackable>::decodes(v.wire(), w) <==> w == v,
{
    lemma_pow256_values();
    lemma_be_bytes_len(to_unsigned(v as int, 1), 1);
    lemma_be_bytes_value(to_unsigned(v as int, 1), 1);
}

/// Round trip for `u16`.
pub proof fn lemma_round_trip_u16(v: u16)
    ensures
        v.wire().len() == <u16 as Unpackable>::wire_len(),
        forall|w: u16| <u16 as Unpackable>::decodes(v.wire(), w) <==> w == v,
{
    lemma_pow256_values();
    lemma_be_bytes_len(v as nat, 2);
    lemma_be_bytes_value(v as nat, 2);
}

/// Round trip for `i16`.
pub proof fn lemma_round_trip_i16(v: i16)
    ensures
        v.wire().len() == <i16 as Unpackable>::wire_len(),
        forall|w: i16| <i16 as Unpackable>::decodes(v.wire(), w) <==> w == v,
{
    lemma_pow256_values();
    lemma_be_bytes_len(to_unsigned(v as int, 2), 2);
    lemma_be_bytes_value(to_unsigned(v as int, 2), 2);
}

/// Round trip for `u32`.
pub proof fn lemma_round_trip_u32(v: u32)
    ensures
        v.wire().len() == <u32 as Unpackable>::wire_len(),
        forall|w: u32| <u32 as Unpackable>::decodes(v.wire(), w) <==> w == v,
{
    lemma_pow256_values();
    lemma_be_bytes_len(v as nat, 4);
    lemma_be_bytes_value(v as nat, 4);
}

/// Round trip for `i32`.
pub proof fn lemma_round_trip_i32(v: i32)
    ensures
        v.wire().len() == <i32 as Unpackable>::wire_len(),
        forall|w: i32| <i32 as Unpackable>::decodes(v.wire(), w) <==> w == v,
{
    lemma_pow256_values();
    lemma_be_bytes_len(to_unsigned(v as int, 4), 4);
    lemma_be_bytes_value(to_unsigned(v as int, 4), 4);
}

/// Round trip for `u64`.
pub proof fn lemma_round_trip_u64(v: u64)
    ensures
        v.wire().len() == <u64 as Unpackable>::wire_len(),
        forall|w: u64| <u64 as Unpackable>::decodes(v.wire(), w) <==> w == v,
{
    lemma_pow256_values();
    lemma_be_bytes_len(v as nat, 8);
    lemma_be_bytes_value(v as nat, 8);
}

/// Round trip for `i64`.
pub proof fn lemma_round_trip_i64(v: i64)
    ensures
        v.wire().len() == <i64 as Unpackable>::wire_len(),
        forall|w: i64| <i64 as Unpackable>::decodes(v.wire(), w) <==> w == v,
{
    lemma_pow256_values();
    lemma_be_bytes_len(to_unsigned(v as int, 8), 8);
    lemma_be_bytes_value(to_unsigned(v as int, 8), 8);
}

/// Round trip for `u128`.
pub proof fn lemma_round_trip_u128(v: u128)
    ensures
        v.wire().len() == <u128 as Unpackable>::wire_len(),
        forall|w: u128| <u128 as Unpackable>::decodes(v.wire(), w) <==> w == v,
{
    lemma_pow256_values();
    lemma_be_bytes_len(v as nat, 16);
    lemma_be_bytes_value(v as nat, 16);
}

/// Round trip for `i128`.
pub proof fn lemma_round_trip_i128(v: i128)
    ensures
        v.wire().len() == <i128 as Unpackable>::wire_len(),
        forall|w: i128| <i128 as Unpackable>::decodes(v.wire(), w) <==> w == v,
{
    lemma_pow256_values();
    lemma_be_bytes_len(to_unsigned(v as int, 16), 16);
    lemma_be_bytes_value(to_unsigned(v as int, 16), 16);
}

} // verus!
