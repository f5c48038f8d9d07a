//! An in-memory byte channel: the transport that both codecs read from and
//! write to. Moving bytes between a channel and a socket or a file is the
//! caller's business.

use vstd::prelude::*;
use crate::errors::{end_of_file, is_end_of_file, Result};

verus! {

/// Appends `src` to the end of `dst`.
pub(crate) fn append_bytes(dst: &mut Vec<u8>, src: &[u8])
    ensures
        final(dst)@ == old(dst)@ + src@,
{
    let mut i: usize = 0;
    while i < src.len()
        invariant
            i <= src@.len(),
            dst@ == old(dst)@ + src@.take(i as int),
        decreases src@.len() - i,
    {
        dst.push(src[i]);
        i = i + 1;
        assert(src@.take(i as int) == src@.take(i - 1).push(src@[i - 1]));
    }
    assert(src@.take(src@.len() as int) == src@);
}

/// Bytes still to be read: a buffer and how far reads have got into it.
struct ReadBuffer {
    buf: Vec<u8>,
    pos: usize,
}

impl ReadBuffer {
    #[verifier::type_invariant]
    spec fn inv(&self) -> bool {
        self.pos <= self.buf@.len()
    }

    closed spec fn unread(&self) -> Seq<u8> {
        self.buf@.skip(self.pos as int)
    }

    fn holding(buf: Vec<u8>) -> (r: ReadBuffer)
        ensures
            r.unread() == buf@,
    {
        let r = ReadBuffer { buf, pos: 0 };
        assert(r.buf@.skip(0) == r.buf@);
        r
    }

    fn copy(&self) -> (r: Vec<u8>)
        ensures
            r@ == self.unread(),
    {
        proof {
            use_type_invariant(self);
        }
        let mut r: Vec<u8> = Vec::new();
        let mut i: usize = self.pos;
        while i < self.buf.len()
            invariant
                self.pos <= i <= self.buf@.len(),
                r@ == self.buf@.subrange(self.pos as int, i as int),
            decreases self.buf@.len() - i,
        {
            r.push(self.buf[i]);
            i = i + 1;
            assert(r@ == self.buf@.subrange(self.pos as int, i as int));
        }
        r
    }

    fn take(&mut self, n: usize) -> (r: Option<Vec<u8>>)
        ensures
            r is Some <==> n <= old(self).unread().len(),
            r matches Some(b) ==> b@ == old(self).unread().take(n as int) && final(self).unread()
                == old(self).unread().skip(n as int),
            r is None ==> final(self).unread() == old(self).unread(),
    {
        proof {
            use_type_invariant(&*self);
        }
        if n > self.buf.len() - self.pos {
            return None;
        }
        let start = self.pos;
        let mut b: Vec<u8> = Vec::with_capacity(n);
        let mut i: usize = 0;
        while i < n
            invariant
                start + n <= self.buf.len(),
                i <= n,
                b@ == self.buf@.subrange(start as int, start + i),
            decreases n - i,
        {
            b.push(self.buf[start + i]);
            i = i + 1;
            assert(b@ == self.buf@.subrange(start as int, start + i));
        }
        self.pos = start + n;
        assert(b@ == old(self).unread().take(n as int));
        assert(self.buf@.skip(self.pos as int) == old(self).unread().skip(n as int));
        Some(b)
    }

    fn take_one(&mut self) -> (r: Option<u8>)
        ensures
            r is Some <==> old(self).unread().len() >= 1,
            r matches Some(b) ==> b == old(self).unread()[0] && final(self).unread() == old(self).unread().skip(1),
            r is None ==> final(self).unread() == old(self).unread(),
    {
        proof {
            use_type_invariant(&*self);
        }
        if self.pos >= self.buf.len() {
            return None;
        }
        let b = self.buf[self.pos];
        self.pos = self.pos + 1;
        assert(self.buf@.skip(self.pos as int) == old(self).unread().skip(1));
        Some(b)
    }
}

/// A buffer of bytes still to be read, and a buffer of the bytes written so far.
pub struct TBufferChannel {
    reader: ReadBuffer,
    write_buf: Vec<u8>,
}

impl TBufferChannel {
    /// The bytes that reads will return, in order.
    pub closed spec fn unread(&self) -> Seq<u8> {
        self.reader.unread()
    }

    /// The bytes written so far, in order.
    pub closed spec fn written(&self) -> Seq<u8> {
        self.write_buf@
    }

    /// An empty channel.
    pub fn new() -> (r: TBufferChannel)
        ensures
            r.unread() == Seq::<u8>::empty(),
            r.written() == Seq::<u8>::empty(),
    {
        TBufferChannel { reader: ReadBuffer::holding(Vec::new()), write_buf: Vec::new() }
    }

    /// An empty channel with room reserved for the given numbers of bytes.
    pub fn with_capacity(read_capacity: usize, write_capacity: usize) -> (r: TBufferChannel)
        ensures
            r.unread() == Seq::<u8>::empty(),
            r.written() == Seq::<u8>::empty(),
    {
        TBufferChannel {
            reader: ReadBuffer::holding(Vec::with_capacity(read_capacity)),
            write_buf: Vec::with_capacity(write_capacity),
        }
    }

    /// A channel whose reads return `bytes`.
    pub fn from_bytes(bytes: &[u8]) -> (r: TBufferChannel)
        ensures
            r.unread() == bytes@,
            r.written() == Seq::<u8>::empty(),
    {
        let mut read_buf: Vec<u8> = Vec::new();
        append_bytes(&mut read_buf, bytes);
        TBufferChannel { reader: ReadBuffer::holding(read_buf), write_buf: Vec::new() }
    }

    /// Replaces the bytes still to be read with `bytes`.
    pub fn set_readable_bytes(&mut self, bytes: &[u8])
        ensures
            final(self).unread() == bytes@,
            final(self).written() == old(self).written(),
    {
        let mut read_buf: Vec<u8> = Vec::new();
        append_bytes(&mut read_buf, bytes);
        self.reader = ReadBuffer::holding(read_buf);
    }

    /// A copy of the bytes written so far.
    pub fn write_bytes(&self) -> (r: Vec<u8>)
        ensures
            r@ == self.written(),
    {
        let mut r: Vec<u8> = Vec::new();
        append_bytes(&mut r, self.write_buf.as_slice());
        r
    }

    /// A copy of the bytes still to be read.
    pub fn read_bytes(&self) -> (r: Vec<u8>)
        ensures
            r@ == self.unread(),
    {
        self.reader.copy()
    }

    /// Forgets the bytes written so far.
    pub fn empty_write_buffer(&mut self)
        ensures
            final(self).unread() == old(self).unread(),
            final(self).written() == Seq::<u8>::empty(),
    {
        self.write_buf = Vec::new();
    }

    /// Makes the bytes written so far the bytes to be read, and empties the
    /// write buffer.
    pub fn copy_write_buffer_to_read_buffer(&mut self)
        ensures
            final(self).unread() == old(self).written(),
            final(self).written() == Seq::<u8>::empty(),
    {
        let mut w: Vec<u8> = Vec::new();
        append_bytes(&mut w, self.write_buf.as_slice());
        self.write_buf = Vec::new();
        self.reader = ReadBuffer::holding(w);
    }

    /// Takes the next `n` bytes, or fails, taking nothing, when fewer are left.
    pub fn read_exact(&mut self, n: usize) -> (r: Result<Vec<u8>>)
        ensures
            r is Ok <==> n <= old(self).unread().len(),
            r matches Ok(b) ==> b@ == old(self).unread().take(n as int) && final(self).unread()
                == old(self).unread().skip(n as int),
            r matches Err(e) ==> is_end_of_file(e) && final(self).unread() == old(self).unread(),
            final(self).written() == old(self).written(),
    {
        match self.reader.take(n) {
            Some(b) => Ok(b),
            None => Err(end_of_file()),
        }
    }

    /// Takes the next byte, or fails when none is left.
    pub fn read_byte(&mut self) -> (r: Result<u8>)
        ensures
            r is Ok <==> old(self).unread().len() >= 1,
            r matches Ok(b) ==> b == old(self).unread()[0] && final(self).unread() == old(self).unread().skip(1),
            r matches Err(e) ==> is_end_of_file(e) && final(self).unread() == old(self).unread(),
            final(self).written() == old(self).written(),
    {
        match self.reader.take_one() {
            Some(b) => Ok(b),
            None => Err(end_of_file()),
        }
    }

    /// Appends `bytes` to what was written.
    pub fn write_all(&mut self, bytes: &[u8])
        ensures
            final(self).written() == old(self).written() + bytes@,
            final(self).unread() == old(self).unread(),
    {
        let mut i: usize = 0;
        while i < bytes.len()
            invariant
                i <= bytes@.len(),
                self.write_buf@ == old(self).written() + bytes@.take(i as int),
                self.unread() == old(self).unread(),
            decreases bytes@.len() - i,
        {
            self.write_buf.push(bytes[i]);
            i = i + 1;
            assert(bytes@.take(i as int) == bytes@.take(i - 1).push(bytes@[i - 1]));
        }
        assert(bytes@.take(bytes@.len() as int) == bytes@);
    }

    /// Appends one byte to what was written.
    pub fn write_byte(&mut self, b: u8)
        ensures
            final(self).written() == old(self).written().push(b),
            final(self).unread() == old(self).unread(),
    {
        self.write_buf.push(b);
    }

    /// Nothing is buffered beyond the write buffer itself: always succeeds.
    pub fn flush(&mut self) -> (r: Result<()>)
        ensures
            r is Ok,
            final(self).written() == old(self).written(),
            final(self).unread() == old(self).unread(),
    {
        Ok(())
    }
}

} // verus!
