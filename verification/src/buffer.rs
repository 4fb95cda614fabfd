//! The bounded byte queue that carries one direction of a socket pair.

use crate::clock::VClock;
use std::collections::VecDeque;
use vstd::prelude::*;

verus! {

/// The maximum capacity of a socket pair's buffer in bytes. The number is
/// arbitrary: on a real system it can always be configured.
pub const MAX_SOCKETPAIR_BUFFER_CAPACITY: usize = 212992;

/// What a buffer holds, as plain values.
#[verifier::ext_equal]
pub struct BufferView {
    /// The queued bytes, oldest first.
    pub bytes: Seq<u8>,
    /// The causal history of every write so far.
    pub clock: Seq<u64>,
    /// Whether an endpoint that writes into this buffer still exists.
    pub has_writer: bool,
}

impl BufferView {
    /// A buffer as it is created: empty, with no history and a live writer.
    pub open spec fn empty() -> BufferView {
        BufferView { bytes: Seq::empty(), clock: Seq::empty(), has_writer: true }
    }

    /// The buffer never holds more than its capacity.
    pub open spec fn wf(self) -> bool {
        self.bytes.len() <= MAX_SOCKETPAIR_BUFFER_CAPACITY
    }

    /// How many more bytes fit.
    pub open spec fn available_space(self) -> int {
        MAX_SOCKETPAIR_BUFFER_CAPACITY - self.bytes.len()
    }

    /// How many bytes a read for at most `max_len` bytes takes out.
    pub open spec fn read_len(self, max_len: nat) -> nat {
        if max_len <= self.bytes.len() {
            max_len
        } else {
            self.bytes.len()
        }
    }

    /// How many bytes of a write of `len` bytes are taken in.
    pub open spec fn write_len(self, len: nat) -> int {
        if len <= self.available_space() {
            len as int
        } else {
            self.available_space()
        }
    }
}

/// One direction of a socket pair: a byte queue, the clock of the writes
/// that filled it, and whether a writer is left.
#[derive(Debug)]
pub struct Buffer {
    pub buf: VecDeque<u8>,
    pub clock: VClock,
    /// Indicates if there is at least one active writer to this buffer.
    /// Once every writer is gone a read on the empty buffer reports
    /// end-of-file instead of blocking.
    pub buf_has_writer: bool,
}

impl View for Buffer {
    type V = BufferView;

    open spec fn view(&self) -> BufferView {
        BufferView { bytes: self.buf@, clock: self.clock@, has_writer: self.buf_has_writer }
    }
}

impl Buffer {
    /// An empty buffer with a live writer.
    pub fn new() -> (res: Self)
        ensures
            res@ == BufferView::empty(),
    {
        Buffer { buf: VecDeque::new(), clock: VClock::default(), buf_has_writer: true }
    }

    /// The number of queued bytes.
    pub fn len(&self) -> (n: usize)
        ensures
            n == self@.bytes.len(),
    {
        self.buf.len()
    }

    /// Whether no byte is queued.
    pub fn is_empty(&self) -> (empty: bool)
        ensures
            empty == (self@.bytes.len() == 0),
    {
        self.buf.len() == 0
    }

    /// How many more bytes fit.
    pub fn available_space(&self) -> (space: usize)
        requires
            self@.wf(),
        ensures
            space == self@.available_space(),
    {
        MAX_SOCKETPAIR_BUFFER_CAPACITY - self.buf.len()
    }

    /// Appends all of `bytes` to the queue, in order.
    pub fn extend(&mut self, bytes: &[u8])
        ensures
            final(self)@ == (BufferView { bytes: old(self)@.bytes + bytes@, ..old(self)@ }),
    {
        let n = bytes.len();
        let mut i: usize = 0;
        while i < n
            invariant
                n == bytes@.len(),
                i <= n,
                self.buf@ == old(self).buf@ + bytes@.subrange(0, i as int),
                self.clock == old(self).clock,
                self.buf_has_writer == old(self).buf_has_writer,
            decreases n - i,
        {
            self.buf.push_back(bytes[i]);
            i += 1;
        }
        assert(bytes@.subrange(0, n as int) == bytes@);
    }

    /// Moves queued bytes, oldest first, to the front of `out`: as many as
    /// are queued and fit. Returns how many were moved; the rest of `out`
    /// is left as it was.
    pub fn read(&mut self, out: &mut [u8]) -> (n: usize)
        ensures
            n == old(self)@.read_len(old(out)@.len()),
            final(out)@ == old(self)@.bytes.subrange(0, n as int) + old(out)@.subrange(
                n as int,
                old(out)@.len() as int,
            ),
            final(self)@ == (BufferView {
                bytes: old(self)@.bytes.subrange(n as int, old(self)@.bytes.len() as int),
                ..old(self)@
            }),
    {
        let cap = out.len();
        let mut n: usize = 0;
        while n < cap && self.buf.len() > 0
            invariant
                cap == old(out)@.len(),
                out@.len() == cap,
                n <= cap,
                n <= old(self).buf@.len(),
                self.buf@ == old(self).buf@.subrange(n as int, old(self).buf@.len() as int),
                out@ == old(self).buf@.subrange(0, n as int) + old(out)@.subrange(
                    n as int,
                    cap as int,
                ),
                self.clock == old(self).clock,
                self.buf_has_writer == old(self).buf_has_writer,
            decreases cap - n,
        {
            let byte = self.buf.pop_front().unwrap();
            out[n] = byte;
            n += 1;
        }
        n
    }
}

} // verus!
