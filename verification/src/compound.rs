//! Compound codecs: fixed-size arrays and growable sequences.
//!
//! Both encode their elements in index order with no length prefix or
//! delimiter.  An array's length is part of its type, so arrays decode
//! too; a growable sequence's length cannot be recovered from the bytes
//! alone, so it deliberately has no decoder — a caller must frame the
//! length out of band and loop element decodes itself.

use vstd::prelude::*;
use vstd::array::array_index_get;
use vstd::arithmetic::mul::{lemma_mul_inequality, lemma_mul_nonnegative};
use crate::error::PackError;
use crate::protocol::{Packable, Unpackable};
use crate::reader::ByteReader;

verus! {

/// The concatenation of the elements' byte representations, in index order.
pub open spec fn wire_concat<T: Packable>(elems: Seq<T>) -> Seq<u8>
    decreases elems.len(),
{
    if elems.len() == 0 {
        Seq::empty()
    } else {
        wire_concat(elems.drop_last()) + elems.last().wire()
    }
}

/// A sub-field cut from a prefix is the same sub-field cut from the whole.
proof fn lemma_sub_field_of_take(s: Seq<u8>, a: int, b: int, c: int)
    requires
        0 <= a,
        0 <= b,
        a + b <= c <= s.len(),
    ensures
        s.take(c).skip(a).take(b) == s.skip(a).take(b),
{
    assert(s.take(c).skip(a).take(b) =~= s.skip(a).take(b));
}

/// Relies on std's `TryInto` conversion from `Vec<T>` to `[T; S]`, which
/// yields the array of the vector's elements exactly when its length is `S`.
#[verifier::external_body]
fn vec_to_array<T, const S: usize>(v: Vec<T>) -> (r: [T; S])
    requires
        v@.len() == S,
    ensures
        r@ == v@,
{
    let arr: [T; S] = v.try_into().ok().unwrap();
    arr
}

impl<T: Packable, const S: usize> Packable for [T; S] {
    open spec fn wire(&self) -> Seq<u8> {
        wire_concat(self@)
    }

    fn pack_into(&self, out: &mut Vec<u8>) -> (r: Result<(), PackError>) {
        let ghost base = out@;
        let mut i: usize = 0;
        while i < S
            invariant
                i <= S,
                out@ == base + wire_concat(self@.take(i as int)),
            decreases S - i,
        {
            let x = array_index_get(self, i);
            match x.pack_into(out) {
                Ok(()) => {},
                Err(e) => {
                    return Err(e);
                },
            }
            proof {
                assert(self@.take(i + 1).drop_last() =~= self@.take(i as int));
                assert(out@ =~= base + wire_concat(self@.take(i + 1)));
            }
            i = i + 1;
        }
        proof {
            assert(self@.take(S as int) =~= self@);
        }
        Ok(())
    }
}

impl<T: Unpackable, const S: usize> Unpackable for [T; S] {
    open spec fn wire_len() -> nat {
        S as nat * T::wire_len()
    }

    /// Element by element: entry `i` decodes from the `i`-th sub-field.
    open spec fn decodes(bytes: Seq<u8>, v: Self) -> bool {
        forall|i: int|
            0 <= i < S ==> T::decodes(
                bytes.skip(i * T::wire_len() as int).take(T::wire_len() as int),
                #[trigger] v@[i],
            )
    }

    fn unpack_from(rdr: &mut ByteReader) -> (r: Result<Self, PackError>) {
        let ghost w = T::wire_len();
        let ghost orig_rem = old(rdr).remaining();
        let start = rdr.bytes_consumed();
        let mut elems: Vec<T> = Vec::new();
        let mut i: usize = 0;
        while i < S
            invariant
                rdr.wf(),
                i <= S,
                elems@.len() == i,
                rdr.all_bytes() == old(rdr).all_bytes(),
                start == old(rdr).position(),
                orig_rem == old(rdr).remaining(),
                w == T::wire_len(),
                rdr.position() == old(rdr).position() + i * w,
                forall|j: int|
                    0 <= j < i ==> T::decodes(
                        orig_rem.skip(j * w as int).take(w as int),
                        #[trigger] elems@[j],
                    ),
            decreases S - i,
        {
            proof {
                assert(rdr.remaining() =~= orig_rem.skip(i * w as int));
            }
            match T::unpack_from(rdr) {
                Ok(x) => {
                    elems.push(x);
                    proof {
                        assert((i + 1) * w == i * w + w) by (nonlinear_arith);
                    }
                },
                Err(e) => {
                    proof {
                        lemma_mul_inequality(i + 1, S as int, w as int);
                        assert((i + 1) * w == i * w + w) by (nonlinear_arith);
                        assert(orig_rem.len() < (i + 1) * w);
                    }
                    rdr.rewind(start);
                    return Err(e);
                },
            }
            i = i + 1;
        }
        proof {
            // The reader is still inside the buffer, so the whole array
            // field was available.
            assert(orig_rem.len() >= S as nat * w);
            assert forall|j: int| 0 <= j < S implies T::decodes(
                orig_rem.take((S as nat * w) as int).skip(j * w as int).take(w as int),
                #[trigger] elems@[j],
            ) by {
                lemma_mul_inequality(j + 1, S as int, w as int);
                assert((j + 1) * w == j * w + w) by (nonlinear_arith);
                lemma_mul_nonnegative(j, w as int);
                lemma_sub_field_of_take(
                    orig_rem,
                    j * w as int,
                    w as int,
                    (S as nat * w) as int,
                );
            }
        }
        let arr: [T; S] = vec_to_array(elems);
        Ok(arr)
    }
}

impl<T: Packable> Packable for Vec<T> {
    open spec fn wire(&self) -> Seq<u8> {
        wire_concat(self@)
    }

    fn pack_into(&self, out: &mut Vec<u8>) -> (r: Result<(), PackError>) {
        let ghost base = out@;
        let n = self.len();
        let mut i: usize = 0;
        while i < n
            invariant
                n == self@.len(),
                i <= n,
                out@ == base + wire_concat(self@.take(i as int)),
            decreases n - i,
        {
            match (&self[i]).pack_into(out) {
                Ok(()) => {},
                Err(e) => {
                    return Err(e);
                },
            }
            proof {
                assert(self@.take(i + 1).drop_last() =~= self@.take(i as int));
                assert(out@ =~= base + wire_concat(self@.take(i + 1)));
            }
            i = i + 1;
        }
        proof {
            assert(self@.take(n as int) =~= self@);
        }
        Ok(())
    }
}

impl<T: Packable> Packable for &T {
    /// Encoding a reference is pure forwarding to the referent.
    open spec fn wire(&self) -> Seq<u8> {
        (**self).wire()
    }

    fn pack_into(&self, out: &mut Vec<u8>) -> (r: Result<(), PackError>) {
        (**self).pack_into(out)
    }
}

} // verus!
