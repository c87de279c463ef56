//! A read cursor over a byte buffer.
//!
//! `ByteReader` tracks how far decoding has advanced into a borrowed buffer.
//! It lives only for the duration of a decode call chain; the buffer itself
//! is never copied.

use vstd::prelude::*;
use vstd::slice::slice_index_get;

verus! {

/// A position-tracked view into a byte buffer.
pub struct ByteReader<'a> {
    buf: &'a [u8],
    pos: usize,
}

impl<'a> ByteReader<'a> {
    /// The whole underlying buffer, read and unread parts alike.
    pub closed spec fn all_bytes(&self) -> Seq<u8> {
        self.buf@
    }

    /// How many bytes have been read.
    pub closed spec fn position(&self) -> nat {
        self.pos as nat
    }

    /// Well-formed: the position never passes the end of the buffer.
    pub open spec fn wf(&self) -> bool {
        self.position() <= self.all_bytes().len()
    }

    /// The unread suffix of the buffer.
    pub open spec fn remaining(&self) -> Seq<u8> {
        self.all_bytes().skip(self.position() as int)
    }

    /// Start reading `buf` from its first byte.
    pub fn new(buf: &'a [u8]) -> (r: Self)
        ensures
            r.wf(),
            r.all_bytes() == buf@,
            r.position() == 0,
    {
        ByteReader { buf, pos: 0 }
    }

    /// How many bytes have been read, as a buffer offset.
    pub fn bytes_consumed(&self) -> (p: usize)
        ensures
            p == self.position(),
    {
        self.pos
    }

    /// How many bytes are left to read.
    pub fn remaining_len(&self) -> (n: usize)
        requires
            self.wf(),
        ensures
            n == self.remaining().len(),
    {
        self.buf.len() - self.pos
    }

    /// Read the next byte and advance past it.
    pub fn take_byte(&mut self) -> (b: u8)
        requires
            old(self).wf(),
            old(self).remaining().len() > 0,
        ensures
            final(self).wf(),
            final(self).all_bytes() == old(self).all_bytes(),
            final(self).position() == old(self).position() + 1,
            b == old(self).remaining()[0],
    {
        let n = self.buf.len();
        assert(self.pos < n);
        let b = *slice_index_get(self.buf, self.pos);
        self.pos = self.pos + 1;
        b
    }

    /// Move the read position back to an offset that was taken earlier.
    pub(crate) fn rewind(&mut self, p: usize)
        requires
            p <= old(self).all_bytes().len(),
        ensures
            final(self).wf(),
            final(self).all_bytes() == old(self).all_bytes(),
            final(self).position() == p,
    {
        self.pos = p;
    }
}

} // verus!
