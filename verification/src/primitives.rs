//! Fixed-width codecs for the scalar types.
//!
//! Every multi-byte integer shares one pair of helpers: `be_append` writes
//! a value's big-endian bytes and `be_read` reads them back, both proved
//! against the `wire` model.  Signed types go through their
//! two's-complement representative.

use vstd::prelude::*;
use vstd::arithmetic::div_mod::lemma_multiply_divide_lt;
use vstd::arithmetic::mul::lemma_mul_inequality;
use crate::error::PackError;
use crate::protocol::{Packable, Unpackable};
use crate::reader::ByteReader;
use crate::wire::{
    be_bytes, be_value, lemma_be_value_bound, lemma_be_value_step, lemma_pow256_increases,
    lemma_pow256_values, pow256, to_unsigned,
};

verus! {

/// Append the `w` big-endian bytes of `v` to `out`.
fn be_append(out: &mut Vec<u8>, v: u128, w: usize) -> (r: Result<(), PackError>)
    requires
        (v as nat) < pow256(w as nat),
    ensures
        r is Ok,
        final(out)@ == old(out)@ + be_bytes(v as nat, w as nat),
    decreases w,
{
    if w > 0 {
        proof {
            lemma_multiply_divide_lt(v as int, 256, pow256((w - 1) as nat) as int);
        }
        let r = be_append(out, v / 256, w - 1);
        out.push((v % 256) as u8);
        proof {
            assert(out@ =~= old(out)@ + be_bytes(v as nat, w as nat));
        }
        r
    } else {
        proof {
            assert(out@ =~= old(out)@ + be_bytes(v as nat, 0));
        }
        Ok(())
    }
}

/// Read `w` bytes from `rdr` as one big-endian value; fail without moving
/// the reader if fewer remain.
fn be_read(rdr: &mut ByteReader, w: usize) -> (r: Result<u128, PackError>)
    requires
        old(rdr).wf(),
        w <= 16,
    ensures
        final(rdr).wf(),
        final(rdr).all_bytes() == old(rdr).all_bytes(),
        old(rdr).remaining().len() >= w ==> {
            &&& r is Ok
            &&& (r->Ok_0 as nat) == be_value(old(rdr).remaining().take(w as int))
            &&& final(rdr).position() == old(rdr).position() + w
        },
        old(rdr).remaining().len() < w ==> {
            &&& r is Err
            &&& r->Err_0 == PackError::SizeError
            &&& final(rdr).position() == old(rdr).position()
        },
{
    if rdr.remaining_len() < w {
        return Err(PackError::SizeError);
    }
    let ghost s = rdr.remaining().take(w as int);
    let mut val: u128 = 0;
    let mut k: usize = 0;
    while k < w
        invariant
            rdr.wf(),
            k <= w,
            w <= 16,
            rdr.all_bytes() == old(rdr).all_bytes(),
            rdr.position() == old(rdr).position() + k,
            old(rdr).remaining().len() >= w,
            s == old(rdr).remaining().take(w as int),
            (val as nat) == be_value(s.take(k as int)),
            (val as nat) < pow256(k as nat),
        decreases w - k,
    {
        proof {
            assert(rdr.remaining().len() == old(rdr).remaining().len() - k);
        }
        let b = rdr.take_byte();
        proof {
            assert(b == old(rdr).remaining()[k as int]);
            assert(s[k as int] == old(rdr).remaining()[k as int]);
            lemma_be_value_step(s, k as int);
            lemma_pow256_increases((k + 1) as nat, 16);
            lemma_pow256_values();
            lemma_mul_inequality(val as int, pow256(k as nat) as int - 1, 256);
        }
        val = val * 256 + (b as u128);
        k = k + 1;
    }
    proof {
        assert(s.take(w as int) =~= s);
    }
    Ok(val)
}

impl Packable for bool {
    /// `true` is the byte 0x01, `false` the byte 0x00.
    open spec fn wire(&self) -> Seq<u8> {
        seq![if *self { 1u8 } else { 0u8 }]
    }

    fn pack_into(&self, out: &mut Vec<u8>) -> (r: Result<(), PackError>) {
        out.push(if *self { 1 } else { 0 });
        proof {
            assert(out@ =~= old(out)@ + self.wire());
        }
        Ok(())
    }
}

impl Unpackable for bool {
    open spec fn wire_len() -> nat {
        1
    }

    /// Lenient policy: any nonzero byte decodes to `true`, 0x00 to `false`.
    open spec fn decodes(bytes: Seq<u8>, v: Self) -> bool {
        v == (bytes[0] != 0)
    }

    fn unpack_from(rdr: &mut ByteReader) -> (r: Result<Self, PackError>) {
        if rdr.remaining_len() < 1 {
            return Err(PackError::SizeError);
        }
        let b = rdr.take_byte();
        proof {
            assert(old(rdr).remaining().take(1)[0] == old(rdr).remaining()[0]);
        }
        Ok(b != 0)
    }
}

impl Packable for u8 {
    open spec fn wire(&self) -> Seq<u8> {
        be_bytes(*self as nat, 1)
    }

    fn pack_into(&self, out: &mut Vec<u8>) -> (r: Result<(), PackError>) {
        proof {
            lemma_pow256_values();
        }
        be_append(out, *self as u128, 1)
    }
}

impl Unpackable for u8 {
    open spec fn wire_len() -> nat {
        1
    }

    open spec fn decodes(bytes: Seq<u8>, v: Self) -> bool {
        v as nat == be_value(bytes)
    }

    fn unpack_from(rdr: &mut ByteReader) -> (r: Result<Self, PackError>) {
        proof {
            lemma_pow256_values();
        }
        match be_read(rdr, 1) {
            Ok(n) => {
                proof {
                    lemma_be_value_bound(old(rdr).remaining().take(1));
                }
                Ok(n as u8)
            },
            Err(e) => Err(e),
        }
    }
}

impl Packable for u16 {
    open spec fn wire(&self) -> Seq<u8> {
        be_bytes(*self as nat, 2)
    }

    fn pack_into(&self, out: &mut Vec<u8>) -> (r: Result<(), PackError>) {
        proof {
            lemma_pow256_values();
        }
        be_append(out, *self as u128, 2)
    }
}

impl Unpackable for u16 {
    open spec fn wire_len() -> nat {
        2
    }

    open spec fn decodes(bytes: Seq<u8>, v: Self) -> bool {
        v as nat == be_value(bytes)
    }

    fn unpack_from(rdr: &mut ByteReader) -> (r: Result<Self, PackError>) {
        proof {
            lemma_pow256_values();
        }
        match be_read(rdr, 2) {
            Ok(n) => {
                proof {
                    lemma_be_value_bound(old(rdr).remaining().take(2));
                }
                Ok(n as u16)
            },
            Err(e) => Err(e),
        }
    }
}

impl Packable for i8 {
    open spec fn wire(&self) -> Seq<u8> {
        be_bytes(to_unsigned(*self as int, 1), 1)
    }

    fn pack_into(&self, out: &mut Vec<u8>) -> (r: Result<(), PackError>) {
        proof {
            lemma_pow256_values();
        }
        let u: u128 = if *self >= 0 {
            *self as u128
        } else {
            ((*self as i128) + 0x100) as u128
        };
        be_append(out, u, 1)
    }
}

impl Unpackable for i8 {
    open spec fn wire_len() -> nat {
        1
    }

    open spec fn decodes(bytes: Seq<u8>, v: Self) -> bool {
        to_unsigned(v as int, 1) == be_value(bytes)
    }

    fn unpack_from(rdr: &mut ByteReader) -> (r: Result<Self, PackError>) {
        proof {
            lemma_pow256_values();
        }
        match be_read(rdr, 1) {
            Ok(n) => {
                proof {
                    lemma_be_value_bound(old(rdr).remaining().take(1));
                }
                let v: i8 = if n >= 0x80 {
                    ((n as i128) - 0x100) as i8
                } else {
                    n as i8
                };
                Ok(v)
            },
            Err(e) => Err(e),
        }
    }
}

impl Packable for i16 {
    open spec fn wire(&self) -> Seq<u8> {
        be_bytes(to_unsigned(*self as int, 2), 2)
    }

    fn pack_into(&self, out: &mut Vec<u8>) -> (r: Result<(), PackError>) {
        proof {
            lemma_pow256_values();
        }
        let u: u128 = if *self >= 0 {
            *self as u128
        } else {
            ((*self as i128) + 0x1_0000) as u128
        };
        be_append(out, u, 2)
    }
}

impl Unpackable for i16 {
    open spec fn wire_len() -> nat {
        2
    }

    open spec fn decodes(bytes: Seq<u8>, v: Self) -> bool {
        to_unsigned(v as int, 2) == be_value(bytes)
    }

    fn unpack_from(rdr: &mut ByteReader) -> (r: Result<Self, PackError>) {
        proof {
            lemma_pow256_values();
        }
        match be_read(rdr, 2) {
            Ok(n) => {
                proof {
                    lemma_be_value_bound(old(rdr).remaining().take(2));
                }
                let v: i16 = if n >= 0x8000 {
                    ((n as i128) - 0x1_0000) as i16
                } else {
                    n as i16
                };
                Ok(v)
            },
            Err(e) => Err(e),
        }
    }
}

impl Packable for u32 {
    open spec fn wire(&self) -> Seq<u8> {
        be_bytes(*self as nat, 4)
    }

    fn pack_into(&self, out: &mut Vec<u8>) -> (r: Result<(), PackError>) {
        proof {
            lemma_pow256_values();
        }
        be_append(out, *self as u128, 4)
    }
}

impl Unpackable for u32 {
    open spec fn wire_len() -> nat {
        4
    }

    open spec fn decodes(bytes: Seq<u8>, v: Self) -> bool {
        v as nat == be_value(bytes)
    }

    fn unpack_from(rdr: &mut ByteReader) -> (r: Result<Self, PackError>) {
        proof {
            lemma_pow256_values();
        }
        match be_read(rdr, 4) {
            Ok(n) => {
                proof {
                    lemma_be_value_bound(old(rdr).remaining().take(4));
                }
                Ok(n as u32)
            },
            Err(e) => Err(e),
        }
    }
}

impl Packable for i32 {
    open spec fn wire(&self) -> Seq<u8> {
        be_bytes(to_unsigned(*self as int, 4), 4)
    }

    fn pack_into(&self, out: &mut Vec<u8>) -> (r: Result<(), PackError>) {
        proof {
            lemma_pow256_values();
        }
        let u: u128 = if *self >= 0 {
            *self as u128
        } else {
            ((*self as i128) + 0x1_0000_0000) as u128
        };
        be_append(out, u, 4)
    }
}

impl Unpackable for i32 {
    open spec fn wire_len() -> nat {
        4
    }

    open spec fn decodes(bytes: Seq<u8>, v: Self) -> bool {
        to_unsigned(v as int, 4) == be_value(bytes)
    }

    fn unpack_from(rdr: &mut ByteReader) -> (r: Result<Self, PackError>) {
        proof {
            lemma_pow256_values();
        }
        match be_read(rdr, 4) {
            Ok(n) => {
                proof {
                    lemma_be_value_bound(old(rdr).remaining().take(4));
                }
                let v: i32 = if n >= 0x8000_0000 {
                    ((n as i128) - 0x1_0000_0000) as i32
                } else {
                    n as i32
                };
                Ok(v)
            },
            Err(e) => Err(e),
        }
    }
}

impl Packable for u64 {
    open spec fn wire(&self) -> Seq<u8> {
        be_bytes(*self as nat, 8)
    }

    fn pack_into(&self, out: &mut Vec<u8>) -> (r: Result<(), PackError>) {
        proof {
            lemma_pow256_values();
        }
        be_append(out, *self as u128, 8)
    }
}

impl Unpackable for u64 {
    open spec fn wire_len() -> nat {
        8
    }

    open spec fn decodes(bytes: Seq<u8>, v: Self) -> bool {
        v as nat == be_value(bytes)
    }

    fn unpack_from(rdr: &mut ByteReader) -> (r: Result<Self, PackError>) {
        proof {
            lemma_pow256_values();
        }
        match be_read(rdr, 8) {
            Ok(n) => {
                proof {
                    lemma_be_value_bound(old(rdr).remaining().take(8));
                }
                Ok(n as u64)
            },
            Err(e) => Err(e),
        }
    }
}

impl Packable for i64 {
    open spec fn wire(&self) -> Seq<u8> {
        be_bytes(to_unsigned(*self as int, 8), 8)
    }

    fn pack_into(&self, out: &mut Vec<u8>) -> (r: Result<(), PackError>) {
        proof {
            lemma_pow256_values();
        }
        let u: u128 = if *self >= 0 {
            *self as u128
        } else {
            ((*self as i128) + 0x1_0000_0000_0000_0000) as u128
        };
        be_append(out, u, 8)
    }
}

impl Unpackable for i64 {
    open spec fn wire_len() -> nat {
        8
    }

    open spec fn decodes(bytes: Seq<u8>, v: Self) -> bool {
        to_unsigned(v as int, 8) == be_value(bytes)
    }

    fn unpack_from(rdr: &mut ByteReader) -> (r: Result<Self, PackError>) {
        proof {
            lemma_pow256_values();
        }
        match be_read(rdr, 8) {
            Ok(n) => {
                proof {
                    lemma_be_value_bound(old(rdr).remaining().take(8));
                }
                let v: i64 = if n >= 0x8000_0000_0000_0000 {
                    ((n as i128) - 0x1_0000_0000_0000_0000) as i64
                } else {
                    n as i64
                };
                Ok(v)
            },
            Err(e) => Err(e),
        }
    }
}

impl Packable for u128 {
    open spec fn wire(&self) -> Seq<u8> {
        be_bytes(*self as nat, 16)
    }

    fn pack_into(&self, out: &mut Vec<u8>) -> (r: Result<(), PackError>) {
        proof {
            lemma_pow256_values();
        }
        be_append(out, *self, 16)
    }
}

impl Unpackable for u128 {
    open spec fn wire_len() -> nat {
        16
    }

    open spec fn decodes(bytes: Seq<u8>, v: Self) -> bool {
        v as nat == be_value(bytes)
    }

    fn unpack_from(rdr: &mut ByteReader) -> (r: Result<Self, PackError>) {
        proof {
            lemma_pow256_values();
        }
        be_read(rdr, 16)
    }
}

impl Packable for i128 {
    open spec fn wire(&self) -> Seq<u8> {
        be_bytes(to_unsigned(*self as int, 16), 16)
    }

    fn pack_into(&self, out: &mut Vec<u8>) -> (r: Result<(), PackError>) {
        proof {
            lemma_pow256_values();
        }
        let u: u128 = if *self >= 0 {
            *self as u128
        } else {
            // The wide representative v + 256^16 does not fit a signed
            // intermediate, so shift into [0, 2^127) first and add 2^127
            // back on the unsigned side.
            (((*self + 0x7fff_ffff_ffff_ffff_ffff_ffff_ffff_ffffi128) + 1) as u128)
                + 0x8000_0000_0000_0000_0000_0000_0000_0000u128
        };
        be_append(out, u, 16)
    }
}

impl Unpackable for i128 {
    open spec fn wire_len() -> nat {
        16
    }

    open spec fn decodes(bytes: Seq<u8>, v: Self) -> bool {
        to_unsigned(v as int, 16) == be_value(bytes)
    }

    fn unpack_from(rdr: &mut ByteReader) -> (r: Result<Self, PackError>) {
        proof {
            lemma_pow256_values();
        }
        match be_read(rdr, 16) {
            Ok(n) => {
                proof {
                    lemma_be_value_bound(old(rdr).remaining().take(16));
                }
                let v: i128 = if n >= 0x8000_0000_0000_0000_0000_0000_0000_0000u128 {
                    ((n - 0x8000_0000_0000_0000_0000_0000_0000_0000u128) as i128
                        - 0x7fff_ffff_ffff_ffff_ffff_ffff_ffff_ffffi128) - 1
                } else {
                    n as i128
                };
                Ok(v)
            },
            Err(e) => Err(e),
        }
    }
}

} // verus!
