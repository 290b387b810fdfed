//! The transport abstraction: a capability contract for bidirectional byte
//! streams, and an in-memory stream for exercising the protocol without a
//! network.

use vstd::prelude::*;

verus! {

/// A connect, read, write or flush failure at the stream level.
#[derive(Debug, Clone, Copy, PartialEq, Eq, Structural)]
pub enum TransportError {
    /// The connection could not be opened.
    Connect,
    /// A read from the stream failed.
    Read,
    /// A write to the stream failed.
    Write,
    /// Flushing the stream failed.
    Flush,
}

/// A bidirectional byte stream: readable and writable.
///
/// A stream is modelled by two byte sequences: `inbox`, the bytes that the
/// other end has sent and this end has not read yet, and `outbox`, the bytes
/// this end has written so far. A read drains the available bytes, up to the
/// size of the buffer it is given; an operation that fails leaves the stream
/// as it was, and the connection is then abandoned.
pub trait Stream: Sized {
    /// The bytes sent by the other end and not yet read. The default leaves
    /// the model empty; a stream the verifier reasons about overrides it.
    open spec fn inbox(&self) -> Seq<u8> {
        Seq::empty()
    }

    /// The bytes written to the other end so far. The default leaves the
    /// model empty; a stream the verifier reasons about overrides it.
    open spec fn outbox(&self) -> Seq<u8> {
        Seq::empty()
    }

    /// Reads into a prefix of `buffer`, leaving the rest of it as it was, and
    /// returns how many bytes were read.
    fn read_into(&mut self, buffer: &mut Vec<u8>) -> (r: Result<usize, TransportError>)
        ensures
            match r {
                Ok(n) => {
                    &&& n == vstd::math::min(
                        old(self).inbox().len() as int,
                        old(buffer)@.len() as int,
                    )
                    &&& final(buffer)@ == old(self).inbox().take(n as int) + old(buffer)@.skip(
                        n as int,
                    )
                    &&& final(self).inbox() == old(self).inbox().skip(n as int)
                    &&& final(self).outbox() == old(self).outbox()
                },
                Err(_) => {
                    &&& *final(self) == *old(self)
                    &&& final(buffer)@ == old(buffer)@
                },
            },
    ;

    /// Writes all of `bytes` to the stream.
    fn write_all(&mut self, bytes: &[u8]) -> (r: Result<(), TransportError>)
        ensures
            match r {
                Ok(()) => {
                    &&& final(self).outbox() == old(self).outbox() + bytes@
                    &&& final(self).inbox() == old(self).inbox()
                },
                Err(_) => *final(self) == *old(self),
            },
    ;

    /// Pushes buffered written bytes out. Flushing changes nothing in the
    /// model of the stream.
    fn flush(&mut self) -> (r: Result<(), TransportError>)
        ensures
            *final(self) == *old(self),
    ;
}

/// A loopback stream held entirely in memory: reads consume a fixed input,
/// writes accumulate. It stands in for a network connection wherever one end
/// of the exchange is driven by hand.
pub struct MemoryStream {
    input: Vec<u8>,
    cursor: usize,
    output: Vec<u8>,
}

impl MemoryStream {
    /// A stream whose other end has already sent `input` and will consume
    /// whatever is written.
    pub fn new(input: Vec<u8>) -> (r: MemoryStream)
        ensures
            r.inbox() == input@,
            r.outbox() == Seq::<u8>::empty(),
    {
        MemoryStream { input, cursor: 0, output: Vec::new() }
    }

    /// Hands out everything written to the stream so far.
    pub fn into_written(self) -> (r: Vec<u8>)
        ensures
            r@ == self.outbox(),
    {
        self.output
    }
}

// An in-memory stream cannot fail: each operation promises success on top
// of the trait's contract, so a caller driving a `MemoryStream` can conclude
// that the whole exchange went through.
impl Stream for MemoryStream {
    closed spec fn inbox(&self) -> Seq<u8> {
        if self.cursor <= self.input@.len() {
            self.input@.skip(self.cursor as int)
        } else {
            Seq::empty()
        }
    }

    closed spec fn outbox(&self) -> Seq<u8> {
        self.output@
    }

    fn read_into(&mut self, buffer: &mut Vec<u8>) -> (r: Result<usize, TransportError>)
        ensures
            r is Ok,
    {
        let avail: usize = if self.cursor <= self.input.len() {
            self.input.len() - self.cursor
        } else {
            0
        };
        let n: usize = if avail < buffer.len() {
            avail
        } else {
            buffer.len()
        };
        let mut idx: usize = 0;
        while idx < n
            invariant
                idx <= n,
                n <= old(buffer)@.len(),
                self == old(self),
                n == 0 || self.cursor + n <= self.input@.len(),
                self.cursor + n <= usize::MAX,
                buffer@.len() == old(buffer)@.len(),
                forall|j: int| 0 <= j < idx ==> buffer@[j] == self.input@[self.cursor + j],
                forall|j: int| idx <= j < buffer@.len() ==> buffer@[j] == old(buffer)@[j],
            decreases n - idx,
        {
            let b = self.input[self.cursor + idx];
            buffer[idx] = b;
            idx = idx + 1;
        }
        let ghost pre = *self;
        self.cursor = self.cursor + n;
        proof {
            assert(buffer@ =~= pre.inbox().take(n as int) + old(buffer)@.skip(n as int));
            assert(self.inbox() =~= pre.inbox().skip(n as int));
        }
        Ok(n)
    }

    fn write_all(&mut self, bytes: &[u8]) -> (r: Result<(), TransportError>)
        ensures
            r is Ok,
    {
        self.output.extend_from_slice(bytes);
        Ok(())
    }

    fn flush(&mut self) -> (r: Result<(), TransportError>)
        ensures
            r is Ok,
    {
        Ok(())
    }
}

} // verus!
